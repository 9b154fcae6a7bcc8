use parametric_ledger::quote_manager::{QuoteError, QuoteManager, NANOSECONDS_PER_DAY};

fn triggers() -> Vec<(String, i32)> {
    vec![
        ("hurricane_category".to_string(), 34),
        ("hurricane_distance".to_string(), 100),
    ]
}

fn issue_sample_quote(manager: &mut QuoteManager, caller: &str, now: u64) -> Result<(), QuoteError> {
    manager.issue_quote(
        &caller.to_string(),
        now,
        "some.client.id".to_string(),
        "some_id".to_string(),
        "trigger.contract".to_string(),
        triggers(),
        1000000000,
        "someGeohash".to_string(),
        [123123123, 1231023123],
    )
}

fn manager_with_issuer() -> QuoteManager {
    let mut quote_manager = QuoteManager::new("hillridge.near".to_string());
    quote_manager
        .add_issuer(&"hillridge.near".to_string(), "hillridge.near".to_string(), 7)
        .unwrap();
    quote_manager
}

#[test]
fn unauthorized_issue_quote() {
    let mut quote_manager = QuoteManager::new("hillridge.near".to_string());
    let result = issue_sample_quote(&mut quote_manager, "hillridge.near", 0);
    assert_eq!(result, Err(QuoteError::NotPermitted));
    assert!(quote_manager.get_quote(&"some_id".to_string()).is_none());
}

#[test]
fn authorized_issue_quote() {
    let mut quote_manager = manager_with_issuer();
    assert_eq!(issue_sample_quote(&mut quote_manager, "hillridge.near", 0), Ok(()));
    let undecided = quote_manager.get_quote(&"some_id".to_string()).unwrap();
    assert_eq!(undecided.quote.client, "some.client.id");
    assert_eq!(undecided.quote.triggers_contract, "trigger.contract");
    assert_eq!(undecided.quote.triggers, triggers());
    assert_eq!(undecided.quote.max_payout, 1000000000);
    assert_eq!(undecided.quote.location, "someGeohash");
    assert_eq!(undecided.quote.coverage_period, [123123123, 1231023123]);
    assert_eq!(undecided.accept_deadline, 7 * NANOSECONDS_PER_DAY);
}

#[test]
fn issue_policy() {
    let mut quote_manager = manager_with_issuer();
    issue_sample_quote(&mut quote_manager, "hillridge.near", 0).unwrap();
    let issued = quote_manager
        .issue_policy(&"hillridge.near".to_string(), &"some_quote_id".to_string(), 0)
        .unwrap();
    assert!(issued.is_none());
}

#[test]
fn remove_invalid_quote() {
    let mut quote_manager = manager_with_issuer();
    assert_eq!(issue_sample_quote(&mut quote_manager, "hillridge.near", 0), Ok(()));
    assert!(quote_manager.get_quote(&"some_id".to_string()).is_some());
}

#[test]
fn issue_policy_hands_back_a_valid_quote() {
    let mut quote_manager = manager_with_issuer();
    issue_sample_quote(&mut quote_manager, "hillridge.near", 1000).unwrap();
    let caller = "hillridge.near".to_string();
    let id = "some_id".to_string();
    let issued = quote_manager.issue_policy(&caller, &id, 1000).unwrap().unwrap();
    assert_eq!(issued.id, "some_id");
    let deadline = 7 * NANOSECONDS_PER_DAY + 1000;
    assert!(quote_manager.issue_policy(&caller, &id, deadline - 1).unwrap().is_some());
    assert!(quote_manager.issue_policy(&caller, &id, deadline).unwrap().is_none());
    assert!(matches!(
        quote_manager.issue_policy(&"stranger.near".to_string(), &id, 0),
        Err(QuoteError::NotPermitted)
    ));
}

#[test]
fn remove_invalid_quote_only_after_its_deadline() {
    let mut quote_manager = manager_with_issuer();
    issue_sample_quote(&mut quote_manager, "hillridge.near", 0).unwrap();
    let owner = "hillridge.near".to_string();
    let id = "some_id".to_string();
    let deadline = 7 * NANOSECONDS_PER_DAY;
    assert_eq!(
        quote_manager.remove_invalid_quote(&owner, &id, deadline - 1),
        Err(QuoteError::QuoteStillValid)
    );
    assert!(quote_manager.get_quote(&id).is_some());
    assert_eq!(
        quote_manager.remove_invalid_quote(&"stranger.near".to_string(), &id, deadline),
        Err(QuoteError::NotPermitted)
    );
    assert_eq!(quote_manager.remove_invalid_quote(&owner, &id, deadline), Ok(()));
    assert!(quote_manager.get_quote(&id).is_none());
    assert_eq!(quote_manager.remove_invalid_quote(&owner, &id, deadline), Ok(()));
}

#[test]
fn quote_deadline_follows_the_issuers_days() {
    let mut quote_manager = manager_with_issuer();
    let issuer = "hillridge.near".to_string();
    assert_eq!(quote_manager.change_days_valid(&issuer, 2), Ok(()));
    issue_sample_quote(&mut quote_manager, "hillridge.near", 5).unwrap();
    let undecided = quote_manager.get_quote(&"some_id".to_string()).unwrap();
    assert_eq!(undecided.accept_deadline, 2 * NANOSECONDS_PER_DAY + 5);
    assert_eq!(
        quote_manager.change_days_valid(&"stranger.near".to_string(), 2),
        Err(QuoteError::NotPermitted)
    );
}

#[test]
fn quote_deadline_out_of_range() {
    let mut quote_manager = manager_with_issuer();
    let issuer = "hillridge.near".to_string();
    quote_manager.change_days_valid(&issuer, u64::MAX / NANOSECONDS_PER_DAY + 1).unwrap();
    assert_eq!(
        issue_sample_quote(&mut quote_manager, "hillridge.near", 0),
        Err(QuoteError::DeadlineOutOfRange)
    );
    quote_manager.change_days_valid(&issuer, u64::MAX / NANOSECONDS_PER_DAY).unwrap();
    assert_eq!(
        issue_sample_quote(&mut quote_manager, "hillridge.near", u64::MAX),
        Err(QuoteError::DeadlineOutOfRange)
    );
    assert!(quote_manager.get_quote(&"some_id".to_string()).is_none());
}

#[test]
fn removed_issuer_can_no_longer_quote() {
    let mut quote_manager = manager_with_issuer();
    let owner = "hillridge.near".to_string();
    assert_eq!(
        quote_manager.remove_issuer(&owner, &"nobody.near".to_string()),
        Err(QuoteError::IssuerNotFound)
    );
    assert_eq!(quote_manager.remove_issuer(&owner, &owner), Ok(()));
    assert_eq!(
        issue_sample_quote(&mut quote_manager, "hillridge.near", 0),
        Err(QuoteError::NotPermitted)
    );
    assert_eq!(
        quote_manager.change_owner(&"stranger.near".to_string(), "stranger.near".to_string()),
        Err(QuoteError::NotPermitted)
    );
    assert_eq!(quote_manager.change_owner(&owner, "next.near".to_string()), Ok(()));
    assert_eq!(
        quote_manager.add_issuer(&owner, "other.near".to_string(), 3),
        Err(QuoteError::NotPermitted)
    );
}
