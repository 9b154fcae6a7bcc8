//! The records that travel between the ledger and its collaborators.
use vstd::prelude::*;

verus! {

/// The role that a party plays towards a policy.
#[derive(Clone, Copy, Debug, PartialEq, Eq, Structural)]
pub enum UserType {
    PayoutAuthority,
    PaymentProcessor,
    Client,
    Issuer,
}

/// A party to a quote, with the account that administers it.
#[derive(Debug)]
pub struct User {
    pub user_type: UserType,
    pub id: String,
    pub authorized_administrator: String,
}

pub ghost struct UserView {
    pub user_type: UserType,
    pub id: Seq<char>,
    pub authorized_administrator: Seq<char>,
}

impl View for User {
    type V = UserView;

    open spec fn view(&self) -> UserView {
        UserView {
            user_type: self.user_type,
            id: self.id@,
            authorized_administrator: self.authorized_administrator@,
        }
    }
}

impl Clone for User {
    fn clone(&self) -> (r: Self)
        ensures
            r@ == self@,
    {
        User {
            user_type: self.user_type,
            id: self.id.clone(),
            authorized_administrator: self.authorized_administrator.clone(),
        }
    }
}

/// A location under protection, in ten-millionths of a degree.
#[derive(Clone, Copy, Debug, PartialEq, Eq, Structural)]
pub struct Location {
    pub latitude: i64,
    pub longitude: i64,
}

/// An accepted offer; it is embedded verbatim in the policy it becomes.
#[derive(Debug)]
pub struct Quote {
    pub id: String,
    pub issuer: User,
    pub client: User,
    /// The claims service that computes the losses of the policy.
    pub claims_manager: String,
    pub policy_type: u8,
    /// The largest total that the policy can pay out.
    pub max_payout: u64,
    /// Start and end of the coverage, in nanoseconds.
    pub coverage_period: [u64; 2],
    /// The ledger that activated the quote.
    pub policy_manager: String,
    pub location: Location,
}

pub ghost struct QuoteView {
    pub id: Seq<char>,
    pub issuer: UserView,
    pub client: UserView,
    pub claims_manager: Seq<char>,
    pub policy_type: u8,
    pub max_payout: u64,
    pub coverage_period: [u64; 2],
    pub policy_manager: Seq<char>,
    pub location: Location,
}

impl View for Quote {
    type V = QuoteView;

    open spec fn view(&self) -> QuoteView {
        QuoteView {
            id: self.id@,
            issuer: self.issuer@,
            client: self.client@,
            claims_manager: self.claims_manager@,
            policy_type: self.policy_type,
            max_payout: self.max_payout,
            coverage_period: self.coverage_period,
            policy_manager: self.policy_manager@,
            location: self.location,
        }
    }
}

impl Clone for Quote {
    fn clone(&self) -> (r: Self)
        ensures
            r@ == self@,
    {
        Quote {
            id: self.id.clone(),
            issuer: self.issuer.clone(),
            client: self.client.clone(),
            claims_manager: self.claims_manager.clone(),
            policy_type: self.policy_type,
            max_payout: self.max_payout,
            coverage_period: self.coverage_period,
            policy_manager: self.policy_manager.clone(),
            location: self.location,
        }
    }
}

/// The join key that correlates one loss across the claims service, the
/// oracle and the ledger.
#[derive(Debug)]
pub struct LossIdentity {
    pub id: String,
    pub event_id: String,
    pub policy_id: String,
    pub client_id: String,
    pub issuer_id: String,
}

/// The mathematical value of a [`LossIdentity`].
pub ghost struct LossIdentityView {
    pub id: Seq<char>,
    pub event_id: Seq<char>,
    pub policy_id: Seq<char>,
    pub client_id: Seq<char>,
    pub issuer_id: Seq<char>,
}

impl View for LossIdentity {
    type V = LossIdentityView;

    open spec fn view(&self) -> LossIdentityView {
        LossIdentityView {
            id: self.id@,
            event_id: self.event_id@,
            policy_id: self.policy_id@,
            client_id: self.client_id@,
            issuer_id: self.issuer_id@,
        }
    }
}

impl DeepView for LossIdentity {
    type V = LossIdentityView;

    open spec fn deep_view(&self) -> LossIdentityView {
        self@
    }
}

impl Clone for LossIdentity {
    fn clone(&self) -> (r: Self)
        ensures
            r@ == self@,
    {
        LossIdentity {
            id: self.id.clone(),
            event_id: self.event_id.clone(),
            policy_id: self.policy_id.clone(),
            client_id: self.client_id.clone(),
            issuer_id: self.issuer_id.clone(),
        }
    }
}

impl LossIdentity {
    /// Whether two identities name the same loss: all five parts agree.
    pub fn same_as(&self, other: &LossIdentity) -> (r: bool)
        ensures
            r == (self@ == other@),
    {
        self.id == other.id && self.event_id == other.event_id && self.policy_id
            == other.policy_id && self.client_id == other.client_id && self.issuer_id
            == other.issuer_id
    }
}

/// What the oracle observed, as handed to the claims service.
#[derive(Debug)]
pub struct OracleMetadata {
    /// Named readings that triggered the computation.
    pub triggering_values: Vec<(String, u32)>,
    pub claims_manager: String,
    pub oracle: String,
}

pub ghost struct OracleMetadataView {
    pub triggering_values: Seq<(Seq<char>, u32)>,
    pub claims_manager: Seq<char>,
    pub oracle: Seq<char>,
}

/// Named values, with the names as text.
pub open spec fn named_view<T>(v: Seq<(String, T)>) -> Seq<(Seq<char>, T)> {
    v.map_values(|t: (String, T)| (t.0@, t.1))
}

/// A copy of a list of named values.
pub fn clone_named<T: Copy>(v: &Vec<(String, T)>) -> (r: Vec<(String, T)>)
    ensures
        named_view(r@) == named_view(v@),
{
    let mut r: Vec<(String, T)> = Vec::new();
    let mut i: usize = 0;
    while i < v.len()
        invariant
            i <= v.len(),
            r@.len() == i,
            forall|j: int| 0 <= j < i ==> #[trigger] r@[j].0@ == v@[j].0@ && r@[j].1 == v@[j].1,
        decreases v.len() - i,
    {
        let name = v[i].0.clone();
        let ghost before = r@;
        r.push((name, v[i].1));
        assert(r@ == before.push(v@[i as int]));
        i = i + 1;
    }
    assert(named_view(r@) =~= named_view(v@));
    r
}

impl View for OracleMetadata {
    type V = OracleMetadataView;

    open spec fn view(&self) -> OracleMetadataView {
        OracleMetadataView {
            triggering_values: named_view(self.triggering_values@),
            claims_manager: self.claims_manager@,
            oracle: self.oracle@,
        }
    }
}

impl Clone for OracleMetadata {
    fn clone(&self) -> (r: Self)
        ensures
            r@ == self@,
    {
        let readings = clone_named(&self.triggering_values);
        OracleMetadata {
            triggering_values: readings,
            claims_manager: self.claims_manager.clone(),
            oracle: self.oracle.clone(),
        }
    }
}

/// A request for a loss computation, built from what the oracle observed.
#[derive(Debug)]
pub struct LossContext {
    pub identity: LossIdentity,
    pub oracle_data: OracleMetadata,
    pub policy_type: u8,
    pub balance_snapshot: u64,
    pub current_percent: u8,
}

pub ghost struct LossContextView {
    pub identity: LossIdentityView,
    pub oracle_data: OracleMetadataView,
    pub policy_type: u8,
    pub balance_snapshot: u64,
    pub current_percent: u8,
}

impl View for LossContext {
    type V = LossContextView;

    open spec fn view(&self) -> LossContextView {
        LossContextView {
            identity: self.identity@,
            oracle_data: self.oracle_data@,
            policy_type: self.policy_type,
            balance_snapshot: self.balance_snapshot,
            current_percent: self.current_percent,
        }
    }
}

impl DeepView for LossContext {
    type V = LossContextView;

    open spec fn deep_view(&self) -> LossContextView {
        self@
    }
}

/// The outcome of a loss computation: the share of the policy that is due
/// and the amount that it comes to.
#[derive(Clone, Copy, Debug, PartialEq, Eq, Structural)]
pub struct LossCalculation {
    pub payout_percent: u8,
    pub amount_due: u64,
}

/// A loss computed by the claims service, waiting for the client's decision.
#[derive(Debug)]
pub struct ComputedLoss {
    pub identity: LossIdentity,
    pub oracle_data: OracleMetadata,
    pub calculations: LossCalculation,
}

pub ghost struct ComputedLossView {
    pub identity: LossIdentityView,
    pub oracle_data: OracleMetadataView,
    pub calculations: LossCalculation,
}

impl View for ComputedLoss {
    type V = ComputedLossView;

    open spec fn view(&self) -> ComputedLossView {
        ComputedLossView {
            identity: self.identity@,
            oracle_data: self.oracle_data@,
            calculations: self.calculations,
        }
    }
}

impl DeepView for ComputedLoss {
    type V = ComputedLossView;

    open spec fn deep_view(&self) -> ComputedLossView {
        self@
    }
}

impl Clone for ComputedLoss {
    fn clone(&self) -> (r: Self)
        ensures
            r@ == self@,
    {
        ComputedLoss {
            identity: self.identity.clone(),
            oracle_data: self.oracle_data.clone(),
            calculations: self.calculations,
        }
    }
}

/// A loss that the client accepted: the issuer owes its amount.
#[derive(Debug)]
pub struct Obligation {
    pub computed_loss: ComputedLoss,
    /// When the ledger recorded the acceptance, in nanoseconds.
    pub contract_update_time: u64,
}

pub ghost struct ObligationView {
    pub computed_loss: ComputedLossView,
    pub contract_update_time: u64,
}

impl View for Obligation {
    type V = ObligationView;

    open spec fn view(&self) -> ObligationView {
        ObligationView {
            computed_loss: self.computed_loss@,
            contract_update_time: self.contract_update_time,
        }
    }
}

impl DeepView for Obligation {
    type V = ObligationView;

    open spec fn deep_view(&self) -> ObligationView {
        self@
    }
}

impl Clone for Obligation {
    fn clone(&self) -> (r: Self)
        ensures
            r@ == self@,
    {
        Obligation {
            computed_loss: self.computed_loss.clone(),
            contract_update_time: self.contract_update_time,
        }
    }
}

/// The record of an obligation that was paid.
#[derive(Debug)]
pub struct Payment {
    /// When the ledger was told of the payment, in nanoseconds.
    pub contract_update_time: u64,
    /// A reference to the payment made outside the ledger.
    pub payment_proof: String,
    pub obligation: Obligation,
}

pub ghost struct PaymentView {
    pub contract_update_time: u64,
    pub payment_proof: Seq<char>,
    pub obligation: ObligationView,
}

impl View for Payment {
    type V = PaymentView;

    open spec fn view(&self) -> PaymentView {
        PaymentView {
            contract_update_time: self.contract_update_time,
            payment_proof: self.payment_proof@,
            obligation: self.obligation@,
        }
    }
}

impl DeepView for Payment {
    type V = PaymentView;

    open spec fn deep_view(&self) -> PaymentView {
        self@
    }
}

impl Clone for Payment {
    fn clone(&self) -> (r: Self)
        ensures
            r@ == self@,
    {
        Payment {
            contract_update_time: self.contract_update_time,
            payment_proof: self.payment_proof.clone(),
            obligation: self.obligation.clone(),
        }
    }
}

/// The client's answer to a computed loss.
#[derive(Debug)]
pub struct LossDecision {
    pub accept: bool,
    pub identity: LossIdentity,
}

/// The notice that an obligation was paid, with a reference to the payment.
#[derive(Debug)]
pub struct ResolveObligation {
    pub identity: LossIdentity,
    pub payment_proof: String,
}

} // verus!
