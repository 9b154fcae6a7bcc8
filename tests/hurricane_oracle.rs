use parametric_ledger::hurricane_oracle::{HurricaneOracle, HurricaneOracleError};

fn oracle_with_node() -> HurricaneOracle {
    let master = "master.near".to_string();
    let mut oracle = HurricaneOracle::new(master.clone());
    oracle.add_admin(&master, "admin.near".to_string()).unwrap();
    oracle
        .add_authorized_account(&"admin.near".to_string(), "node.near".to_string())
        .unwrap();
    oracle
}

fn hurricane_triggers() -> Vec<(String, Vec<i32>)> {
    vec![
        ("location".to_string(), vec![25, -80]),
        ("category".to_string(), vec![3, 5]),
    ]
}

#[test]
fn check_for_events_records_a_request() {
    let mut oracle = oracle_with_node();
    let ledger = "ledger.near".to_string();
    assert_eq!(
        oracle.check_for_events(&ledger, "policy-1".to_string(), hurricane_triggers()),
        Ok(())
    );
    let node = "node.near".to_string();
    let request = oracle.get_request(&node, &"policy-1".to_string()).unwrap().unwrap();
    assert_eq!(request.policy_id, "policy-1");
    assert_eq!(request.policy_manager, "ledger.near");
    assert_eq!(request.triggers, (3, vec![25, -80]));
    assert!(oracle.get_request(&node, &"policy-2".to_string()).unwrap().is_none());
}

#[test]
fn check_for_events_truncates_the_category() {
    let mut oracle = oracle_with_node();
    let triggers = vec![
        ("category".to_string(), vec![259]),
        ("location".to_string(), vec![1]),
    ];
    oracle
        .check_for_events(&"ledger.near".to_string(), "policy-1".to_string(), triggers)
        .unwrap();
    let request = oracle
        .get_request(&"node.near".to_string(), &"policy-1".to_string())
        .unwrap()
        .unwrap();
    assert_eq!(request.triggers.0, 3);
}

#[test]
fn check_for_events_needs_category_and_location() {
    let mut oracle = oracle_with_node();
    let ledger = "ledger.near".to_string();
    let only_location = vec![("location".to_string(), vec![25, -80])];
    let empty_category = vec![
        ("category".to_string(), vec![]),
        ("location".to_string(), vec![25, -80]),
    ];
    for triggers in [vec![], only_location, empty_category] {
        assert_eq!(
            oracle.check_for_events(&ledger, "policy-1".to_string(), triggers),
            Err(HurricaneOracleError::TriggerDataError)
        );
    }
    assert!(oracle
        .get_request(&"node.near".to_string(), &"policy-1".to_string())
        .unwrap()
        .is_none());
}

#[test]
fn only_authorized_nodes_read_and_report() {
    let mut oracle = oracle_with_node();
    oracle
        .check_for_events(&"ledger.near".to_string(), "policy-1".to_string(), hurricane_triggers())
        .unwrap();
    let stranger = "stranger.near".to_string();
    assert!(matches!(
        oracle.get_request(&stranger, &"policy-1".to_string()),
        Err(HurricaneOracleError::Unauthorized)
    ));
    assert!(matches!(oracle.get_all_requests(&stranger), Err(HurricaneOracleError::Unauthorized)));
    assert!(matches!(
        oracle.fulfill_request(&stranger, &"policy-1".to_string(), ("storm-9".to_string(), 77)),
        Err(HurricaneOracleError::Unauthorized)
    ));
}

#[test]
fn fulfill_request_notifies_the_ledger() {
    let mut oracle = oracle_with_node();
    oracle
        .check_for_events(&"ledger.near".to_string(), "policy-1".to_string(), hurricane_triggers())
        .unwrap();
    let node = "node.near".to_string();
    let notice = oracle
        .fulfill_request(&node, &"policy-1".to_string(), ("storm-9".to_string(), 77))
        .unwrap();
    assert_eq!(notice.policy_manager, "ledger.near");
    assert_eq!(notice.policy_id, "policy-1");
    assert_eq!(notice.event.id, "storm-9");
    assert_eq!(notice.event.oracle, "node.near");
    assert_eq!(notice.event.date, 77);
    assert!(matches!(
        oracle.fulfill_request(&node, &"policy-2".to_string(), ("storm-9".to_string(), 77)),
        Err(HurricaneOracleError::RequestNotFound)
    ));
}

#[test]
fn get_all_requests_lists_each_policy_once() {
    let mut oracle = oracle_with_node();
    let ledger = "ledger.near".to_string();
    oracle.check_for_events(&ledger, "policy-1".to_string(), hurricane_triggers()).unwrap();
    oracle.check_for_events(&ledger, "policy-2".to_string(), hurricane_triggers()).unwrap();
    oracle.check_for_events(&ledger, "policy-1".to_string(), hurricane_triggers()).unwrap();
    let all = oracle.get_all_requests(&"node.near".to_string()).unwrap();
    let mut ids: Vec<String> = all.iter().map(|r| r.policy_id.clone()).collect();
    ids.sort();
    assert_eq!(ids, vec!["policy-1".to_string(), "policy-2".to_string()]);
}

#[test]
fn oracle_admin_roles() {
    let mut oracle = oracle_with_node();
    let master = "master.near".to_string();
    let admin = "admin.near".to_string();
    assert_eq!(
        oracle.add_admin(&admin, "other.near".to_string()),
        Err(HurricaneOracleError::Unauthorized)
    );
    assert_eq!(
        oracle.remove_authorized_account(&admin, &"ghost.near".to_string()),
        Err(HurricaneOracleError::AccountNotFound)
    );
    assert_eq!(oracle.remove_authorized_account(&admin, &"node.near".to_string()), Ok(()));
    assert!(matches!(
        oracle.get_all_requests(&"node.near".to_string()),
        Err(HurricaneOracleError::Unauthorized)
    ));
    assert_eq!(oracle.remove_admin(&master, &admin), Ok(()));
    assert_eq!(
        oracle.add_authorized_account(&admin, "node.near".to_string()),
        Err(HurricaneOracleError::Unauthorized)
    );
    assert_eq!(
        oracle.remove_admin(&master, &admin),
        Err(HurricaneOracleError::AccountNotFound)
    );
    assert_eq!(oracle.change_master_admin(&master, "next.near".to_string()), Ok(()));
    assert_eq!(
        oracle.add_admin(&master, "other.near".to_string()),
        Err(HurricaneOracleError::Unauthorized)
    );
}

#[test]
fn oracle_error_messages() {
    assert_eq!(
        HurricaneOracleError::TriggerDataError.message(),
        "trigger data improperly formatted."
    );
    assert_eq!(HurricaneOracleError::RequestNotFound.message(), "the request was not found");
}
