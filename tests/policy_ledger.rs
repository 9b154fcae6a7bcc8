use parametric_ledger::policy::Policy;
use parametric_ledger::policy_manager::{LossComputation, PolicyError, PolicyManager};
use parametric_ledger::records::{
    ComputedLoss, LossCalculation, LossContext, LossDecision, LossIdentity, Location,
    OracleMetadata, Quote, ResolveObligation, User, UserType,
};

const OWNER: &str = "owner.near";
const ACTIVATOR: &str = "activator.near";
const CLIENT_ADMIN: &str = "client-admin.near";

fn s(x: &str) -> String {
    x.to_string()
}

fn quote(max_payout: u64) -> Quote {
    Quote {
        id: s("quote-1"),
        issuer: User { user_type: UserType::Issuer, id: s("issuer-1"), authorized_administrator: s("issuer.near") },
        client: User { user_type: UserType::Client, id: s("client-1"), authorized_administrator: s(CLIENT_ADMIN) },
        claims_manager: s("claims.near"),
        policy_type: 1,
        max_payout,
        coverage_period: [100, 200],
        policy_manager: s("ledger.near"),
        location: Location { latitude: 257_000_000, longitude: -801_000_000 },
    }
}

fn identity(id: &str) -> LossIdentity {
    LossIdentity {
        id: s(id),
        event_id: s("storm-1"),
        policy_id: s("policy-1"),
        client_id: s("client-1"),
        issuer_id: s("issuer-1"),
    }
}

fn oracle_data() -> OracleMetadata {
    OracleMetadata {
        triggering_values: vec![(s("category"), 4)],
        claims_manager: s("claims.near"),
        oracle: s("oracle.near"),
    }
}

fn loss(id: &str, amount_due: u64) -> ComputedLoss {
    ComputedLoss {
        identity: identity(id),
        oracle_data: oracle_data(),
        calculations: LossCalculation { payout_percent: 20, amount_due },
    }
}

fn ledger() -> PolicyManager {
    let mut ledger = PolicyManager::new(s(OWNER));
    ledger.add_policy_activator(&s(OWNER), s(ACTIVATOR)).unwrap();
    ledger.save_policy(&s(ACTIVATOR), Policy::new(s("policy-1"), quote(1000))).unwrap();
    ledger
}

fn policy(ledger: &PolicyManager) -> Policy {
    ledger.get_policy(&s("policy-1")).unwrap()
}

fn decide(ledger: &mut PolicyManager, id: &str, accept: bool, now: u64) -> Result<LossDecision, PolicyError> {
    ledger.post_loss_decision(&s(CLIENT_ADMIN), LossDecision { accept, identity: identity(id) }, now)
}

fn pay(ledger: &mut PolicyManager, id: &str, proof: &str, now: u64) -> Result<parametric_ledger::records::Payment, PolicyError> {
    ledger.post_payment_made(
        &s(ACTIVATOR),
        ResolveObligation { identity: identity(id), payment_proof: s(proof) },
        now,
    )
}

fn ledger_with_loss(amount: u64) -> PolicyManager {
    let mut ledger = ledger();
    ledger.compute_loss_callback(LossComputation::Computed(vec![loss("loss-1", amount)])).unwrap();
    ledger
}

#[test]
fn new_policy_starts_with_its_whole_cover() {
    let p = Policy::new(s("policy-1"), quote(1000));
    assert_eq!(p.balance(), 1000);
    assert_eq!(p.pending_balance(), 1000);
    assert_eq!(p.max_payout(), 1000);
    assert_eq!((p.start_date(), p.end_date()), (100, 200));
    assert!(p.active());
    assert_eq!(p.issuer().id, "issuer-1");
    assert_eq!(p.client().id, "client-1");
    assert_eq!(p.claims_manager(), "claims.near");
    assert!(p.computed_losses().is_empty() && p.obligations().is_empty());
    assert!(p.rejected_losses().is_empty() && p.payments().is_empty());
}

#[test]
fn scenario_loss_computed() {
    let ledger = ledger_with_loss(200);
    let p = policy(&ledger);
    assert_eq!(p.pending_balance(), 800);
    assert_eq!(p.balance(), 1000);
    assert_eq!(p.computed_losses().len(), 1);
    assert_eq!(p.computed_losses()[0].calculations.amount_due, 200);
    let waiting = ledger.get_loss_identities(&s("client-1")).unwrap();
    assert_eq!(waiting.len(), 1);
    assert_eq!(waiting[0].id, "loss-1");
    let c = ledger.get_computed_loss(&identity("loss-1")).unwrap();
    assert_eq!(c.calculations.amount_due, 200);
}

#[test]
fn scenario_loss_rejected() {
    let mut ledger = ledger_with_loss(200);
    let decision = decide(&mut ledger, "loss-1", false, 5).unwrap();
    assert!(!decision.accept);
    assert_eq!(decision.identity.id, "loss-1");
    let p = policy(&ledger);
    assert_eq!(p.pending_balance(), 1000);
    assert_eq!(p.rejected_losses().len(), 1);
    assert!(p.computed_losses().is_empty());
    assert!(p.obligations().is_empty());
    assert!(ledger.get_loss_identities(&s("client-1")).unwrap().is_empty());
}

#[test]
fn scenario_loss_accepted() {
    let mut ledger = ledger_with_loss(200);
    decide(&mut ledger, "loss-1", true, 5).unwrap();
    let p = policy(&ledger);
    assert_eq!(p.obligations().len(), 1);
    assert_eq!(p.obligations()[0].computed_loss.calculations.amount_due, 200);
    assert_eq!(p.obligations()[0].contract_update_time, 5);
    let owed = ledger.get_issuer_obligations(&s("issuer-1")).unwrap();
    assert_eq!(owed.len(), 1);
    assert_eq!(owed[0].computed_loss.calculations.amount_due, 200);
    assert_eq!(p.balance(), 1000);
    assert_eq!(p.pending_balance(), 800);
    assert!(p.computed_losses().is_empty());
}

#[test]
fn scenario_payment_made() {
    let mut ledger = ledger_with_loss(200);
    decide(&mut ledger, "loss-1", true, 5).unwrap();
    let payment = pay(&mut ledger, "loss-1", "tx123", 9).unwrap();
    assert_eq!(payment.payment_proof, "tx123");
    assert_eq!(payment.contract_update_time, 9);
    assert_eq!(payment.obligation.computed_loss.calculations.amount_due, 200);
    let p = policy(&ledger);
    assert_eq!(p.balance(), 800);
    assert_eq!(p.payments().len(), 1);
    assert_eq!(p.payments()[0].obligation.computed_loss.calculations.amount_due, 200);
    assert!(p.obligations().is_empty());
    assert!(ledger.get_issuer_obligations(&s("issuer-1")).unwrap().is_empty());
    assert_eq!(ledger.get_policy_balance(&s("policy-1")), Ok(800));
}

#[test]
fn scenario_payment_made_twice() {
    let mut ledger = ledger_with_loss(200);
    decide(&mut ledger, "loss-1", true, 5).unwrap();
    pay(&mut ledger, "loss-1", "tx123", 9).unwrap();
    assert!(matches!(pay(&mut ledger, "loss-1", "tx123", 10), Err(PolicyError::ObligationNotFound)));
    assert_eq!(policy(&ledger).balance(), 800);
}

#[test]
fn scenario_claim_without_succession() {
    let mut ledger = ledger();
    assert_eq!(ledger.claim_master_admin(&s("stranger.near")), Err(PolicyError::NoPendingSuccession));
    assert_eq!(ledger.master_admin(), OWNER);
}

#[test]
fn succession_hands_over_the_role() {
    let mut ledger = ledger();
    assert_eq!(
        ledger.suspend_master_admin(&s("stranger.near"), s("stranger.near")),
        Err(PolicyError::Unauthorized)
    );
    assert_eq!(ledger.suspend_master_admin(&s(OWNER), s("heir.near")), Ok(s("heir.near")));
    assert_eq!(ledger.new_master_admin(), Some(&s("heir.near")));
    assert_eq!(ledger.claim_master_admin(&s("stranger.near")), Err(PolicyError::Unauthorized));
    assert_eq!(ledger.claim_master_admin(&s("heir.near")), Ok(s("heir.near")));
    assert_eq!(ledger.master_admin(), "heir.near");
    assert_eq!(ledger.new_master_admin(), None);
    assert_eq!(ledger.cancel_master_admin_abdication(&s(OWNER)), Err(PolicyError::Unauthorized));
}

#[test]
fn succession_can_be_cancelled() {
    let mut ledger = ledger();
    ledger.suspend_master_admin(&s(OWNER), s("heir.near")).unwrap();
    assert_eq!(ledger.cancel_master_admin_abdication(&s(OWNER)), Ok(true));
    assert_eq!(ledger.claim_master_admin(&s("heir.near")), Err(PolicyError::NoPendingSuccession));
    assert_eq!(ledger.master_admin(), OWNER);
}

#[test]
fn balance_stays_within_cover() {
    let mut ledger = ledger();
    let batch = vec![loss("loss-1", 300), loss("loss-2", 250), loss("loss-3", 400)];
    ledger.compute_loss_callback(LossComputation::Computed(batch)).unwrap();
    decide(&mut ledger, "loss-1", true, 1).unwrap();
    decide(&mut ledger, "loss-2", false, 2).unwrap();
    decide(&mut ledger, "loss-3", true, 3).unwrap();
    pay(&mut ledger, "loss-3", "tx-3", 4).unwrap();
    pay(&mut ledger, "loss-1", "tx-1", 5).unwrap();
    let p = policy(&ledger);
    assert_eq!(p.balance(), 300);
    assert_eq!(p.pending_balance(), 300);
    assert!(p.balance() <= p.quote().max_payout);
    assert_eq!(
        ledger.compute_loss_callback(LossComputation::Computed(vec![loss("loss-4", 301)])).map(|v| v.len()),
        Err(PolicyError::PendingBalanceExceeded)
    );
    ledger.compute_loss_callback(LossComputation::Computed(vec![loss("loss-4", 300)])).unwrap();
    decide(&mut ledger, "loss-4", true, 6).unwrap();
    pay(&mut ledger, "loss-4", "tx-4", 7).unwrap();
    assert_eq!(policy(&ledger).balance(), 0);
    assert_eq!(policy(&ledger).pending_balance(), 0);
}

#[test]
fn loss_sits_in_one_list_at_a_time() {
    let mut ledger = ledger();
    let batch = vec![loss("loss-1", 100), loss("loss-2", 100)];
    ledger.compute_loss_callback(LossComputation::Computed(batch)).unwrap();
    decide(&mut ledger, "loss-1", true, 1).unwrap();
    decide(&mut ledger, "loss-2", false, 2).unwrap();
    let p = policy(&ledger);
    let waiting: Vec<String> = p.computed_losses().iter().map(|c| c.identity.id.clone()).collect();
    let owed: Vec<String> = p.obligations().iter().map(|o| o.computed_loss.identity.id.clone()).collect();
    let rejected: Vec<String> = p.rejected_losses().iter().map(|c| c.identity.id.clone()).collect();
    assert!(waiting.is_empty());
    assert_eq!(owed, vec![s("loss-1")]);
    assert_eq!(rejected, vec![s("loss-2")]);
    assert!(matches!(decide(&mut ledger, "loss-1", false, 3), Err(PolicyError::ComputedLossNotFound)));
}

#[test]
fn get_policy_twice_gives_the_same_policy() {
    let ledger = ledger_with_loss(200);
    let first = ledger.get_policy(&s("policy-1"));
    let second = ledger.get_policy(&s("policy-1"));
    assert_eq!(format!("{:?}", first), format!("{:?}", second));
    assert!(ledger.get_policy(&s("policy-2")).is_none());
}

#[test]
fn accept_then_pay_round_trip() {
    let mut ledger = ledger_with_loss(350);
    let before = policy(&ledger).balance();
    decide(&mut ledger, "loss-1", true, 1).unwrap();
    pay(&mut ledger, "loss-1", "tx-9", 2).unwrap();
    let p = policy(&ledger);
    assert_eq!(p.balance(), before - 350);
    assert!(p.obligations().is_empty());
    assert!(ledger.get_issuer_obligations(&s("issuer-1")).unwrap().is_empty());
}

#[test]
fn compute_loss_addresses_the_last_claims_service() {
    let ledger = ledger();
    let context = |claims: &str| LossContext {
        identity: identity("loss-1"),
        oracle_data: OracleMetadata { triggering_values: vec![], claims_manager: s(claims), oracle: s("oracle.near") },
        policy_type: 1,
        balance_snapshot: 1000,
        current_percent: 0,
    };
    let request = ledger.compute_loss(vec![context("first.near"), context("last.near")]).unwrap();
    assert_eq!(request.claims_manager, "last.near");
    assert_eq!(request.loss_contexts.len(), 2);
    assert!(matches!(ledger.compute_loss(vec![]), Err(PolicyError::NoLossContexts)));
}

#[test]
fn failed_or_unreadable_computation_changes_nothing() {
    let mut ledger = ledger_with_loss(200);
    assert!(matches!(ledger.compute_loss_callback(LossComputation::Failed), Err(PolicyError::RemoteCallFailed)));
    assert!(matches!(
        ledger.compute_loss_callback(LossComputation::Malformed),
        Err(PolicyError::MalformedRemoteResult)
    ));
    let p = policy(&ledger);
    assert_eq!(p.pending_balance(), 800);
    assert_eq!(p.computed_losses().len(), 1);
}

#[test]
fn overdrawing_batch_is_refused_whole() {
    let mut ledger = ledger();
    let batch = vec![loss("loss-1", 600), loss("loss-2", 500)];
    assert!(matches!(
        ledger.compute_loss_callback(LossComputation::Computed(batch)),
        Err(PolicyError::PendingBalanceExceeded)
    ));
    let p = policy(&ledger);
    assert_eq!(p.pending_balance(), 1000);
    assert!(p.computed_losses().is_empty());
    assert!(ledger.get_loss_identities(&s("client-1")).is_none());
}

#[test]
fn loss_for_unknown_policy_is_passed_over() {
    let mut ledger = ledger();
    let mut stray = loss("loss-9", 100);
    stray.identity.policy_id = s("policy-9");
    let returned = ledger
        .compute_loss_callback(LossComputation::Computed(vec![stray, loss("loss-1", 100)]))
        .unwrap();
    assert_eq!(returned.len(), 2);
    assert_eq!(policy(&ledger).pending_balance(), 900);
    assert_eq!(ledger.get_loss_identities(&s("client-1")).unwrap().len(), 1);
}

#[test]
fn redelivered_loss_is_counted_twice() {
    let mut ledger = ledger();
    ledger.compute_loss_callback(LossComputation::Computed(vec![loss("loss-1", 100)])).unwrap();
    ledger.compute_loss_callback(LossComputation::Computed(vec![loss("loss-1", 100)])).unwrap();
    let p = policy(&ledger);
    assert_eq!(p.pending_balance(), 800);
    assert_eq!(p.computed_losses().len(), 2);
}

#[test]
fn only_the_client_administrator_decides() {
    let mut ledger = ledger_with_loss(200);
    let decision = LossDecision { accept: true, identity: identity("loss-1") };
    assert!(matches!(
        ledger.post_loss_decision(&s("stranger.near"), decision, 1),
        Err(PolicyError::Unauthorized)
    ));
    assert_eq!(policy(&ledger).computed_losses().len(), 1);
    let mut unknown = identity("loss-1");
    unknown.policy_id = s("policy-9");
    assert!(matches!(
        ledger.post_loss_decision(&s(CLIENT_ADMIN), LossDecision { accept: true, identity: unknown }, 1),
        Err(PolicyError::PolicyNotFound)
    ));
}

#[test]
fn accepting_needs_a_registered_issuer() {
    let mut ledger = ledger();
    let mut foreign = loss("loss-1", 100);
    foreign.identity.issuer_id = s("issuer-9");
    ledger.compute_loss_callback(LossComputation::Computed(vec![foreign])).unwrap();
    let mut id = identity("loss-1");
    id.issuer_id = s("issuer-9");
    assert!(matches!(
        ledger.post_loss_decision(&s(CLIENT_ADMIN), LossDecision { accept: true, identity: id }, 1),
        Err(PolicyError::IssuerObligationsNotFound)
    ));
    assert_eq!(policy(&ledger).computed_losses().len(), 1);
    assert!(ledger.get_issuer_obligations(&s("issuer-9")).is_none());
}

#[test]
fn decision_on_a_loss_no_longer_waiting() {
    let mut ledger = ledger_with_loss(200);
    let copy = policy(&ledger);
    decide(&mut ledger, "loss-1", false, 1).unwrap();
    ledger.save_policy(&s(ACTIVATOR), copy).unwrap();
    assert!(matches!(decide(&mut ledger, "loss-1", false, 2), Err(PolicyError::LossIdentityNotFound)));
    let p = policy(&ledger);
    assert!(p.computed_losses().is_empty());
    assert_eq!(p.rejected_losses().len(), 1);
    assert_eq!(p.pending_balance(), 1000);
}

#[test]
fn payment_needs_the_obligation_in_the_index() {
    let mut ledger = ledger_with_loss(200);
    decide(&mut ledger, "loss-1", true, 1).unwrap();
    let copy = policy(&ledger);
    pay(&mut ledger, "loss-1", "tx-1", 2).unwrap();
    ledger.save_policy(&s(ACTIVATOR), copy).unwrap();
    assert!(matches!(pay(&mut ledger, "loss-1", "tx-2", 3), Err(PolicyError::ObligationNotFoundInIndex)));
    assert_eq!(policy(&ledger).balance(), 1000);
    assert_eq!(policy(&ledger).obligations().len(), 1);
}

#[test]
fn only_activators_save_and_report_payments() {
    let mut ledger = ledger_with_loss(200);
    decide(&mut ledger, "loss-1", true, 1).unwrap();
    assert!(matches!(
        ledger.save_policy(&s("stranger.near"), Policy::new(s("policy-2"), quote(50))),
        Err(PolicyError::Unauthorized)
    ));
    assert!(ledger.get_policy(&s("policy-2")).is_none());
    let resolve = ResolveObligation { identity: identity("loss-1"), payment_proof: s("tx") };
    assert!(matches!(
        ledger.post_payment_made(&s("stranger.near"), resolve, 2),
        Err(PolicyError::Unauthorized)
    ));
    let mut unknown = identity("loss-1");
    unknown.policy_id = s("policy-9");
    let resolve = ResolveObligation { identity: unknown, payment_proof: s("tx") };
    assert!(matches!(ledger.post_payment_made(&s(ACTIVATOR), resolve, 2), Err(PolicyError::PolicyNotFound)));
}

#[test]
fn activator_list_is_kept_by_the_master_admin() {
    let mut ledger = ledger();
    assert!(ledger.is_policy_activator(&s(ACTIVATOR)));
    assert_eq!(ledger.add_policy_activator(&s(ACTIVATOR), s("x.near")), Err(PolicyError::Unauthorized));
    assert_eq!(
        ledger.remove_policy_activator(&s(OWNER), &s("x.near")),
        Err(PolicyError::PolicyActivatorNotFound)
    );
    assert_eq!(ledger.remove_policy_activator(&s(OWNER), &s(ACTIVATOR)), Ok(s(ACTIVATOR)));
    assert!(!ledger.is_policy_activator(&s(ACTIVATOR)));
}

#[test]
fn lookups_report_what_is_missing() {
    let ledger = ledger_with_loss(200);
    assert_eq!(ledger.get_policy_balance(&s("policy-9")), Err(PolicyError::PolicyNotFound));
    let mut unknown = identity("loss-1");
    unknown.policy_id = s("policy-9");
    assert!(matches!(ledger.get_computed_loss(&unknown), Err(PolicyError::PolicyNotFound)));
    assert!(matches!(ledger.get_computed_loss(&identity("loss-2")), Err(PolicyError::ComputedLossNotFound)));
}

#[test]
fn policy_from_consistent_parts() {
    let ledger = ledger_with_loss(200);
    let parts = policy(&ledger).into_parts();
    assert_eq!(parts.pending_balance, 800);
    let rebuilt = Policy::from_parts(parts).unwrap();
    assert_eq!(rebuilt.pending_balance(), 800);
    assert_eq!(rebuilt.computed_losses().len(), 1);
}

#[test]
fn policy_from_inconsistent_parts() {
    let ledger = ledger_with_loss(200);
    let mut parts = policy(&ledger).into_parts();
    parts.pending_balance = 1000;
    assert!(Policy::from_parts(parts).is_none());
    let mut parts = Policy::new(s("policy-2"), quote(1000)).into_parts();
    parts.balance = 1001;
    parts.pending_balance = 1001;
    assert!(Policy::from_parts(parts).is_none());
    let mut parts = Policy::new(s("policy-3"), quote(u64::MAX)).into_parts();
    parts.computed_losses = vec![loss("loss-1", u64::MAX), loss("loss-2", 1)];
    assert!(Policy::from_parts(parts).is_none());
}
