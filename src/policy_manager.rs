//! The policy ledger: the policies, the issuers' outstanding obligations, the
//! losses awaiting each client's decision, and who may act on them.
use vstd::prelude::*;

use crate::policy::{
    first_index, loss_identities, obligation_identities, Policy, PolicyView,
};
use crate::records::{
    ComputedLoss, ComputedLossView, LossContext, LossDecision, LossIdentity, LossIdentityView,
    Obligation, ObligationView, Payment, PaymentView, ResolveObligation,
};
use crate::accounts::{names, position_of, remove_first};
use crate::table::Table;

verus! {

/// Why a ledger operation was refused.
#[derive(Clone, Copy, Debug, PartialEq, Eq, Structural)]
pub enum PolicyError {
    /// The caller does not hold the role that the operation needs.
    Unauthorized,
    PolicyNotFound,
    ComputedLossNotFound,
    ObligationNotFound,
    /// The issuer has no entry in the obligation index.
    IssuerObligationsNotFound,
    /// The obligation is in its policy but not in the issuer's index.
    ObligationNotFoundInIndex,
    /// The loss is not among those awaiting the client's decision.
    LossIdentityNotFound,
    /// No handover of the master-admin role has been started.
    NoPendingSuccession,
    PolicyActivatorNotFound,
    /// A loss computation was asked for with no loss context.
    NoLossContexts,
    /// A computed loss is larger than what is pending on its policy.
    PendingBalanceExceeded,
    /// The remote loss computation failed.
    RemoteCallFailed,
    /// The remote loss computation answered with something unreadable.
    MalformedRemoteResult,
}

/// The remote loss computation to dispatch: which claims service to ask, and
/// the contexts to send it.
#[derive(Debug)]
pub struct LossRequest {
    pub claims_manager: String,
    pub loss_contexts: Vec<LossContext>,
}

/// How a remote loss computation came back.
#[derive(Debug)]
pub enum LossComputation {
    /// The losses that the claims service computed.
    Computed(Vec<ComputedLoss>),
    /// The remote call failed.
    Failed,
    /// The answer could not be read as a list of computed losses.
    Malformed,
}

/// The policies after the computed loss `c` is applied: a loss for a policy
/// that is not stored is passed over, and one larger than what is pending on
/// its policy makes the whole batch fail.
pub open spec fn apply_loss(
    policies: Map<Seq<char>, PolicyView>,
    c: ComputedLossView,
) -> Option<Map<Seq<char>, PolicyView>> {
    let k = c.identity.policy_id;
    if !policies.contains_key(k) {
        Some(policies)
    } else if c.calculations.amount_due > policies[k].pending_balance {
        None
    } else {
        Some(policies.insert(k, policies[k].record_loss(c)))
    }
}

/// The policies after the computed losses `s` are applied in order, or
/// `None` where one of them cannot be.
pub open spec fn apply_losses(
    policies: Map<Seq<char>, PolicyView>,
    s: Seq<ComputedLossView>,
) -> Option<Map<Seq<char>, PolicyView>>
    decreases s.len(),
{
    if s.len() == 0 {
        Some(policies)
    } else {
        match apply_losses(policies, s.drop_last()) {
            Some(q) => apply_loss(q, s.last()),
            None => None,
        }
    }
}

/// The waiting lists after the identity `id` joins its client's list.
pub open spec fn note_waiting(
    waiting: Map<Seq<char>, Seq<LossIdentityView>>,
    id: LossIdentityView,
) -> Map<Seq<char>, Seq<LossIdentityView>> {
    let c = id.client_id;
    waiting.insert(
        c,
        if waiting.contains_key(c) {
            waiting[c].push(id)
        } else {
            seq![id]
        },
    )
}

/// The waiting lists after each loss of `s` whose policy is among
/// `policies` joins its client's list, in order.
pub open spec fn note_all_waiting(
    waiting: Map<Seq<char>, Seq<LossIdentityView>>,
    policies: Map<Seq<char>, PolicyView>,
    s: Seq<ComputedLossView>,
) -> Map<Seq<char>, Seq<LossIdentityView>>
    decreases s.len(),
{
    if s.len() == 0 {
        waiting
    } else {
        let w = note_all_waiting(waiting, policies, s.drop_last());
        if policies.contains_key(s.last().identity.policy_id) {
            note_waiting(w, s.last().identity)
        } else {
            w
        }
    }
}

pub proof fn lemma_apply_losses_keeps_keys(
    policies: Map<Seq<char>, PolicyView>,
    s: Seq<ComputedLossView>,
)
    requires
        apply_losses(policies, s) is Some,
    ensures
        apply_losses(policies, s)->Some_0.dom() == policies.dom(),
    decreases s.len(),
{
    if s.len() > 0 {
        lemma_apply_losses_keeps_keys(policies, s.drop_last());
        let q = apply_losses(policies, s.drop_last())->Some_0;
        assert(apply_losses(policies, s)->Some_0.dom() =~= q.dom());
    }
}

pub proof fn lemma_apply_losses_stuck(
    policies: Map<Seq<char>, PolicyView>,
    s: Seq<ComputedLossView>,
    i: int,
)
    requires
        0 <= i <= s.len(),
        apply_losses(policies, s.take(i)) is None,
    ensures
        apply_losses(policies, s) is None,
    decreases s.len() - i,
{
    if i == s.len() {
        assert(s.take(i) =~= s);
    } else {
        assert(s.take(i + 1).drop_last() =~= s.take(i));
        lemma_apply_losses_stuck(policies, s, i + 1);
    }
}

/// The mathematical value of a [`PolicyManager`].
pub ghost struct PolicyManagerView {
    /// Policies by policy id.
    pub policies: Map<Seq<char>, PolicyView>,
    pub master_admin: Seq<char>,
    /// The account that may claim the master-admin role, once offered.
    pub new_master_admin: Option<Seq<char>>,
    /// Accounts that may activate policies and report payments.
    pub policy_activators: Seq<Seq<char>>,
    /// Outstanding obligations by issuer id.
    pub obligations: Map<Seq<char>, Seq<ObligationView>>,
    /// Losses awaiting a decision, by client id.
    pub loss_identities: Map<Seq<char>, Seq<LossIdentityView>>,
}

impl PolicyManagerView {
    /// Every policy is well formed and stored under its own id.
    pub open spec fn wf(self) -> bool {
        forall|k: Seq<char>| #[trigger]
            self.policies.contains_key(k) ==> self.policies[k].wf() && self.policies[k].policy_id
                == k
    }

    /// What the ledger becomes, and what it answers, when `caller` saves the
    /// policy `p`.
    pub open spec fn save(self, caller: Seq<char>, p: PolicyView) -> (
        PolicyManagerView,
        Result<(), PolicyError>,
    ) {
        if !self.policy_activators.contains(caller) {
            (self, Err(PolicyError::Unauthorized))
        } else {
            (
                PolicyManagerView {
                    policies: self.policies.insert(p.policy_id, p),
                    obligations: register_issuer(self.obligations, p.issuer.id),
                    ..self
                },
                Ok(()),
            )
        }
    }

    /// The policy stored under `policy_id`, if any.
    pub open spec fn policy_lookup(self, policy_id: Seq<char>) -> Option<PolicyView> {
        if self.policies.contains_key(policy_id) {
            Some(self.policies[policy_id])
        } else {
            None
        }
    }

    /// The decision on the loss `id` as recorded in its policy and in the
    /// issuer's index, before the loss leaves the client's waiting list.
    pub open spec fn record_decision(
        self,
        caller: Seq<char>,
        accept: bool,
        id: LossIdentityView,
        now: u64,
    ) -> (PolicyManagerView, Result<(), PolicyError>) {
        let k = id.policy_id;
        let p = self.policies[k];
        let ids = loss_identities(p.computed_losses);
        let i = first_index(ids, id);
        if !self.policies.contains_key(k) {
            (self, Err(PolicyError::PolicyNotFound))
        } else if caller != p.quote.client.authorized_administrator {
            (self, Err(PolicyError::Unauthorized))
        } else if !ids.contains(id) {
            (self, Err(PolicyError::ComputedLossNotFound))
        } else if accept && !self.obligations.contains_key(id.issuer_id) {
            (self, Err(PolicyError::IssuerObligationsNotFound))
        } else if accept {
            (
                PolicyManagerView {
                    policies: self.policies.insert(k, p.accept(i, now)),
                    obligations: self.obligations.insert(
                        id.issuer_id,
                        self.obligations[id.issuer_id].push(
                            ObligationView {
                                computed_loss: p.computed_losses[i],
                                contract_update_time: now,
                            },
                        ),
                    ),
                    ..self
                },
                Ok(()),
            )
        } else {
            (PolicyManagerView { policies: self.policies.insert(k, p.reject(i)), ..self }, Ok(()))
        }
    }

    /// The loss `id` leaves its client's list of losses awaiting a decision.
    pub open spec fn clear_waiting(self, id: LossIdentityView) -> (
        PolicyManagerView,
        Result<(), PolicyError>,
    ) {
        let c = id.client_id;
        if self.loss_identities.contains_key(c) && self.loss_identities[c].contains(id) {
            (
                PolicyManagerView {
                    loss_identities: self.loss_identities.insert(
                        c,
                        self.loss_identities[c].remove(first_index(self.loss_identities[c], id)),
                    ),
                    ..self
                },
                Ok(()),
            )
        } else {
            (self, Err(PolicyError::LossIdentityNotFound))
        }
    }

    /// What the ledger becomes, and what it answers, when `caller` decides
    /// on the loss `id`: `accept` or reject it, at time `now`.
    pub open spec fn decide(self, caller: Seq<char>, accept: bool, id: LossIdentityView, now: u64) -> (
        PolicyManagerView,
        Result<(), PolicyError>,
    ) {
        let recorded = self.record_decision(caller, accept, id, now);
        if recorded.1 is Ok {
            recorded.0.clear_waiting(id)
        } else {
            recorded
        }
    }

    /// What the ledger becomes, and what it answers, when `caller` reports
    /// the payment of the obligation `id` with `proof`, at time `now`.
    pub open spec fn pay(self, caller: Seq<char>, id: LossIdentityView, proof: Seq<char>, now: u64) -> (
        PolicyManagerView,
        Result<PaymentView, PolicyError>,
    ) {
        if !self.policy_activators.contains(caller) {
            (self, Err(PolicyError::Unauthorized))
        } else {
            self.settle(id, proof, now)
        }
    }

    /// The payment of the obligation `id`, with `proof`, at time `now`,
    /// recorded in its policy and in the issuer's index.
    pub open spec fn settle(self, id: LossIdentityView, proof: Seq<char>, now: u64) -> (
        PolicyManagerView,
        Result<PaymentView, PolicyError>,
    ) {
        let k = id.policy_id;
        let p = self.policies[k];
        let i = first_index(obligation_identities(p.obligations), id);
        let owed = self.obligations[id.issuer_id];
        let j = first_index(obligation_identities(owed), id);
        if !self.policies.contains_key(k) {
            (self, Err(PolicyError::PolicyNotFound))
        } else if !obligation_identities(p.obligations).contains(id) {
            (self, Err(PolicyError::ObligationNotFound))
        } else if !self.obligations.contains_key(id.issuer_id) || !obligation_identities(
            owed,
        ).contains(id) {
            (self, Err(PolicyError::ObligationNotFoundInIndex))
        } else {
            let settled = p.settle(i, proof, now);
            (
                PolicyManagerView {
                    policies: self.policies.insert(k, settled),
                    obligations: self.obligations.insert(id.issuer_id, owed.remove(j)),
                    ..self
                },
                Ok(settled.payments.last()),
            )
        }
    }

    /// What the ledger becomes, and what it answers, when the computed
    /// losses `s` come back: all of them are recorded, or none.
    pub open spec fn receive_losses(self, s: Seq<ComputedLossView>) -> (
        PolicyManagerView,
        Result<(), PolicyError>,
    ) {
        match apply_losses(self.policies, s) {
            Some(q) => (
                PolicyManagerView {
                    policies: q,
                    loss_identities: note_all_waiting(self.loss_identities, self.policies, s),
                    ..self
                },
                Ok(()),
            ),
            None => (self, Err(PolicyError::PendingBalanceExceeded)),
        }
    }

    /// The same ledger with the master-admin record replaced.
    pub open spec fn with_admins(
        self,
        master_admin: Seq<char>,
        new_master_admin: Option<Seq<char>>,
    ) -> PolicyManagerView {
        PolicyManagerView { master_admin, new_master_admin, ..self }
    }
}

/// The issuer index with an entry for `issuer`.
pub open spec fn register_issuer(
    index: Map<Seq<char>, Seq<ObligationView>>,
    issuer: Seq<char>,
) -> Map<Seq<char>, Seq<ObligationView>> {
    if index.contains_key(issuer) {
        index
    } else {
        index.insert(issuer, Seq::empty())
    }
}

/// Where `id` first stands in `ids`, if at all.
fn identity_position(ids: &Vec<LossIdentity>, id: &LossIdentity) -> (r: Option<usize>)
    ensures
        r is None <==> !ids.deep_view().contains(id@),
        r matches Some(i) ==> i < ids.len() && i == first_index(ids.deep_view(), id@),
{
    let ghost s = ids.deep_view();
    let mut i: usize = 0;
    while i < ids.len()
        invariant
            s == ids.deep_view(),
            i <= ids.len(),
            forall|j: int| 0 <= j < i ==> s[j] != id@,
        decreases ids.len() - i,
    {
        if ids[i].same_as(id) {
            proof {
                crate::policy::lemma_first_index(s, id@, i as int);
            }
            return Some(i);
        }
        i = i + 1;
    }
    None
}

/// Where the obligation for `id` first stands in `obligations`, if at all.
fn obligation_position(obligations: &Vec<Obligation>, id: &LossIdentity) -> (r: Option<usize>)
    ensures
        r is None <==> !obligation_identities(obligations.deep_view()).contains(id@),
        r matches Some(i) ==> i < obligations.len() && i == first_index(
            obligation_identities(obligations.deep_view()),
            id@,
        ),
{
    let ghost s = obligation_identities(obligations.deep_view());
    let mut i: usize = 0;
    while i < obligations.len()
        invariant
            s == obligation_identities(obligations.deep_view()),
            i <= obligations.len(),
            forall|j: int| 0 <= j < i ==> s[j] != id@,
        decreases obligations.len() - i,
    {
        if obligations[i].computed_loss.identity.same_as(id) {
            proof {
                crate::policy::lemma_first_index(s, id@, i as int);
            }
            return Some(i);
        }
        i = i + 1;
    }
    None
}

/// The policy ledger.
#[derive(Debug)]
pub struct PolicyManager {
    policies: Table<Policy>,
    master_admin: String,
    new_master_admin: Option<String>,
    policy_managers: Vec<String>,
    obligations: Table<Vec<Obligation>>,
    loss_identities: Table<Vec<LossIdentity>>,
}

pub open spec fn opt_view(o: Option<String>) -> Option<Seq<char>> {
    match o {
        Some(s) => Some(s@),
        None => None,
    }
}

impl View for PolicyManager {
    type V = PolicyManagerView;

    closed spec fn view(&self) -> PolicyManagerView {
        PolicyManagerView {
            policies: self.policies@,
            master_admin: self.master_admin@,
            new_master_admin: opt_view(self.new_master_admin),
            policy_activators: names(self.policy_managers@),
            obligations: self.obligations@,
            loss_identities: self.loss_identities@,
        }
    }
}

impl PolicyManager {
    pub closed spec fn wf(&self) -> bool {
        &&& self.policies.wf()
        &&& self.obligations.wf()
        &&& self.loss_identities.wf()
        &&& self@.wf()
    }

    /// An empty ledger administered by `master_admin`.
    pub fn new(master_admin: String) -> (r: PolicyManager)
        ensures
            r.wf(),
            r@ == (PolicyManagerView {
                policies: Map::empty(),
                master_admin: master_admin@,
                new_master_admin: None,
                policy_activators: Seq::empty(),
                obligations: Map::empty(),
                loss_identities: Map::empty(),
            }),
    {
        let r = PolicyManager {
            policies: Table::new(),
            master_admin,
            new_master_admin: None,
            policy_managers: Vec::new(),
            obligations: Table::new(),
            loss_identities: Table::new(),
        };
        assert(r@.policy_activators =~= Seq::<Seq<char>>::empty());
        r
    }

    pub fn master_admin(&self) -> (r: &String)
        ensures
            r@ == self@.master_admin,
    {
        &self.master_admin
    }

    pub fn new_master_admin(&self) -> (r: Option<&String>)
        ensures
            r matches Some(a) ==> self@.new_master_admin == Some(a@),
            r is None ==> self@.new_master_admin is None,
    {
        self.new_master_admin.as_ref()
    }

    /// Whether `account` may activate policies and report payments.
    pub fn is_policy_activator(&self, account: &String) -> (r: bool)
        ensures
            r == self@.policy_activators.contains(account@),
    {
        position_of(&self.policy_managers, account).is_some()
    }

    /// Adds `policy_activator` to the accounts that may activate policies;
    /// only the master admin may do so.
    pub fn add_policy_activator(&mut self, caller: &String, policy_activator: String) -> (r: Result<
        String,
        PolicyError,
    >)
        requires
            old(self).wf(),
        ensures
            final(self).wf(),
            caller@ != old(self)@.master_admin ==> r == Err::<String, PolicyError>(
                PolicyError::Unauthorized,
            ) && final(self)@ == old(self)@,
            caller@ == old(self)@.master_admin ==> (r matches Ok(a) && a@ == policy_activator@)
                && final(self)@ == (PolicyManagerView {
                policy_activators: old(self)@.policy_activators.push(policy_activator@),
                ..old(self)@
            }),
    {
        if *caller != self.master_admin {
            return Err(PolicyError::Unauthorized);
        }
        let r = policy_activator.clone();
        self.policy_managers.push(policy_activator);
        assert(self@.policy_activators =~= old(self)@.policy_activators.push(r@));
        Ok(r)
    }

    /// Takes the first occurrence of `policy_activator` off the accounts that
    /// may activate policies; only the master admin may do so.
    pub fn remove_policy_activator(&mut self, caller: &String, policy_activator: &String) -> (r:
        Result<String, PolicyError>)
        requires
            old(self).wf(),
        ensures
            final(self).wf(),
            caller@ != old(self)@.master_admin ==> r == Err::<String, PolicyError>(
                PolicyError::Unauthorized,
            ) && final(self)@ == old(self)@,
            caller@ == old(self)@.master_admin && !old(self)@.policy_activators.contains(
                policy_activator@,
            ) ==> r == Err::<String, PolicyError>(PolicyError::PolicyActivatorNotFound)
                && final(self)@ == old(self)@,
            caller@ == old(self)@.master_admin && old(self)@.policy_activators.contains(
                policy_activator@,
            ) ==> (r matches Ok(a) && a@ == policy_activator@) && final(self)@ == (
            PolicyManagerView {
                policy_activators: old(self)@.policy_activators.remove(
                    first_index(old(self)@.policy_activators, policy_activator@),
                ),
                ..old(self)@
            }),
    {
        if *caller != self.master_admin {
            return Err(PolicyError::Unauthorized);
        }
        match remove_first(&mut self.policy_managers, policy_activator) {
            Some(removed) => Ok(removed),
            None => Err(PolicyError::PolicyActivatorNotFound),
        }
    }

    /// Starts handing the master-admin role over to `new_master_admin`; only
    /// the master admin may do so.
    pub fn suspend_master_admin(&mut self, caller: &String, new_master_admin: String) -> (r:
        Result<String, PolicyError>)
        requires
            old(self).wf(),
        ensures
            final(self).wf(),
            caller@ != old(self)@.master_admin ==> r == Err::<String, PolicyError>(
                PolicyError::Unauthorized,
            ) && final(self)@ == old(self)@,
            caller@ == old(self)@.master_admin ==> (r matches Ok(a) && a@ == new_master_admin@)
                && final(self)@ == old(self)@.with_admins(
                old(self)@.master_admin,
                Some(new_master_admin@),
            ),
    {
        if *caller != self.master_admin {
            return Err(PolicyError::Unauthorized);
        }
        let r = new_master_admin.clone();
        self.new_master_admin = Some(new_master_admin);
        Ok(r)
    }

    /// Calls off a handover of the master-admin role; only the master admin
    /// may do so.
    pub fn cancel_master_admin_abdication(&mut self, caller: &String) -> (r: Result<
        bool,
        PolicyError,
    >)
        requires
            old(self).wf(),
        ensures
            final(self).wf(),
            caller@ != old(self)@.master_admin ==> r == Err::<bool, PolicyError>(
                PolicyError::Unauthorized,
            ) && final(self)@ == old(self)@,
            caller@ == old(self)@.master_admin ==> r == Ok::<bool, PolicyError>(true)
                && final(self)@ == old(self)@.with_admins(old(self)@.master_admin, None),
    {
        if *caller != self.master_admin {
            return Err(PolicyError::Unauthorized);
        }
        self.new_master_admin = None;
        Ok(true)
    }

    /// Completes a handover: the account it was offered to becomes master
    /// admin.
    pub fn claim_master_admin(&mut self, caller: &String) -> (r: Result<String, PolicyError>)
        requires
            old(self).wf(),
        ensures
            final(self).wf(),
            old(self)@.new_master_admin is None ==> r == Err::<String, PolicyError>(
                PolicyError::NoPendingSuccession,
            ) && final(self)@ == old(self)@,
            old(self)@.new_master_admin matches Some(c) && c != caller@ ==> r == Err::<
                String,
                PolicyError,
            >(PolicyError::Unauthorized) && final(self)@ == old(self)@,
            old(self)@.new_master_admin == Some(caller@) ==> (r matches Ok(a) && a@ == caller@)
                && final(self)@ == old(self)@.with_admins(caller@, None),
    {
        match &self.new_master_admin {
            None => Err(PolicyError::NoPendingSuccession),
            Some(candidate) => {
                if *candidate != *caller {
                    return Err(PolicyError::Unauthorized);
                }
                let r = candidate.clone();
                self.master_admin = candidate.clone();
                self.new_master_admin = None;
                Ok(r)
            },
        }
    }

    /// Stores `policy` under its id, in place of any policy stored there,
    /// and gives its issuer an entry in the obligation index if it has none.
    /// Only a policy activator may save policies. Returns a copy of the policy.
    pub fn save_policy(&mut self, caller: &String, policy: Policy) -> (r: Result<
        Policy,
        PolicyError,
    >)
        requires
            old(self).wf(),
            policy@.wf(),
        ensures
            final(self).wf(),
            final(self)@ == old(self)@.save(caller@, policy@).0,
            old(self)@.save(caller@, policy@).1 is Ok ==> (r matches Ok(p) && p@ == policy@),
            old(self)@.save(caller@, policy@).1 matches Err(e) ==> r == Err::<Policy, PolicyError>(
                e,
            ),
    {
        if !self.is_policy_activator(caller) {
            return Err(PolicyError::Unauthorized);
        }
        let response = policy.clone();
        let issuer_id = policy.issuer().id.clone();
        if self.obligations.get(&issuer_id).is_none() {
            let none_owed: Vec<Obligation> = Vec::new();
            assert(none_owed.deep_view() =~= Seq::<ObligationView>::empty());
            self.obligations.insert(issuer_id, none_owed);
        }
        let key = policy.policy_id().clone();
        self.policies.insert(key, policy);
        assert(self@.obligations =~= register_issuer(old(self)@.obligations, policy@.issuer.id));
        Ok(response)
    }

    /// A copy of the policy stored under `policy_id`, if any.
    pub fn get_policy(&self, policy_id: &String) -> (r: Option<Policy>)
        requires
            self.wf(),
        ensures
            r is None ==> self@.policy_lookup(policy_id@) is None,
            r matches Some(p) ==> self@.policy_lookup(policy_id@) == Some(p@) && p@.wf(),
    {
        match self.policies.get(policy_id) {
            Some(p) => Some(p.clone()),
            None => None,
        }
    }

    /// The balance of the policy stored under `policy_id`.
    pub fn get_policy_balance(&self, policy_id: &String) -> (r: Result<u64, PolicyError>)
        requires
            self.wf(),
        ensures
            !self@.policies.contains_key(policy_id@) ==> r == Err::<u64, PolicyError>(
                PolicyError::PolicyNotFound,
            ),
            self@.policies.contains_key(policy_id@) ==> r == Ok::<u64, PolicyError>(
                self@.policies[policy_id@].balance,
            ),
    {
        match self.policies.get(policy_id) {
            Some(p) => Ok(p.balance()),
            None => Err(PolicyError::PolicyNotFound),
        }
    }

    /// A copy of the computed loss with identity `loss_identity`, still
    /// awaiting the client's decision.
    pub fn get_computed_loss(&self, loss_identity: &LossIdentity) -> (r: Result<
        ComputedLoss,
        PolicyError,
    >)
        requires
            self.wf(),
        ensures
            !self@.policies.contains_key(loss_identity@.policy_id) ==> r == Err::<
                ComputedLoss,
                PolicyError,
            >(PolicyError::PolicyNotFound),
            ({
                let k = loss_identity@.policy_id;
                let losses = self@.policies[k].computed_losses;
                self@.policies.contains_key(k) ==> if loss_identities(losses).contains(
                    loss_identity@,
                ) {
                    r matches Ok(c) && c@ == losses[first_index(
                        loss_identities(losses),
                        loss_identity@,
                    )]
                } else {
                    r == Err::<ComputedLoss, PolicyError>(PolicyError::ComputedLossNotFound)
                }
            }),
    {
        match self.policies.get(&loss_identity.policy_id) {
            None => Err(PolicyError::PolicyNotFound),
            Some(p) => match p.find_computed_loss(loss_identity) {
                None => Err(PolicyError::ComputedLossNotFound),
                Some(i) => Ok(p.computed_losses()[i].clone()),
            },
        }
    }

    /// The obligations that the issuer `issuer_id` still has to pay, if the
    /// issuer has an entry in the index.
    pub fn get_issuer_obligations(&self, issuer_id: &String) -> (r: Option<Vec<Obligation>>)
        requires
            self.wf(),
        ensures
            r is None <==> !self@.obligations.contains_key(issuer_id@),
            r matches Some(v) ==> v.deep_view() == self@.obligations[issuer_id@],
    {
        match self.obligations.get(issuer_id) {
            Some(v) => {
                let c = v.clone();
                assert(c.deep_view() =~= v.deep_view());
                Some(c)
            },
            None => None,
        }
    }

    /// The losses that the client `client_id` has yet to decide on, if the
    /// client has an entry in the index.
    pub fn get_loss_identities(&self, client_id: &String) -> (r: Option<Vec<LossIdentity>>)
        requires
            self.wf(),
        ensures
            r is None <==> !self@.loss_identities.contains_key(client_id@),
            r matches Some(v) ==> v.deep_view() == self@.loss_identities[client_id@],
    {
        match self.loss_identities.get(client_id) {
            Some(v) => {
                let c = v.clone();
                assert(c.deep_view() =~= v.deep_view());
                Some(c)
            },
            None => None,
        }
    }

    /// The client's decision on a computed loss.
    ///
    /// The caller must administer the policy's client. The loss leaves the
    /// computed losses: accepted, it becomes an obligation dated `now`, in the
    /// policy and in the issuer's index; rejected, it joins the rejected
    /// losses and its amount returns to the pending balance. Last, the loss
    /// leaves the client's list of losses awaiting a decision. Where it is not
    /// there, the decision stays recorded in the policy and the answer is
    /// `LossIdentityNotFound`: that last step is not undone with the others.
    /// Every other refusal leaves the ledger as it was. Returns the decision.
    pub fn post_loss_decision(&mut self, caller: &String, loss_decision: LossDecision, now: u64) -> (r:
        Result<LossDecision, PolicyError>)
        requires
            old(self).wf(),
        ensures
            final(self).wf(),
            final(self)@ == old(self)@.decide(
                caller@,
                loss_decision.accept,
                loss_decision.identity@,
                now,
            ).0,
            old(self)@.decide(caller@, loss_decision.accept, loss_decision.identity@, now).1 is Ok
                ==> (r matches Ok(d) && d.accept == loss_decision.accept && d.identity@
                == loss_decision.identity@),
            old(self)@.decide(caller@, loss_decision.accept, loss_decision.identity@, now).1 matches Err(
                e,
            ) ==> r == Err::<LossDecision, PolicyError>(e),
    {
        if let Err(e) = self.record_decision(caller, &loss_decision, now) {
            return Err(e);
        }
        match self.clear_waiting(&loss_decision.identity) {
            Ok(()) => Ok(loss_decision),
            Err(e) => Err(e),
        }
    }

    fn record_decision(&mut self, caller: &String, loss_decision: &LossDecision, now: u64) -> (r:
        Result<(), PolicyError>)
        requires
            old(self).wf(),
        ensures
            final(self).wf(),
            (final(self)@, r) == old(self)@.record_decision(
                caller@,
                loss_decision.accept,
                loss_decision.identity@,
                now,
            ),
    {
        let ghost id = loss_decision.identity@;
        let policy = match self.policies.get(&loss_decision.identity.policy_id) {
            None => return Err(PolicyError::PolicyNotFound),
            Some(p) => p,
        };
        if *caller != policy.quote().client.authorized_administrator {
            return Err(PolicyError::Unauthorized);
        }
        let i = match policy.find_computed_loss(&loss_decision.identity) {
            None => return Err(PolicyError::ComputedLossNotFound),
            Some(i) => i,
        };
        let mut updated = policy.clone();
        if loss_decision.accept {
            let owed = match self.obligations.get(&loss_decision.identity.issuer_id) {
                None => return Err(PolicyError::IssuerObligationsNotFound),
                Some(o) => o,
            };
            let mut owed = owed.clone();
            let ghost before = owed.deep_view();
            assert(before =~= old(self)@.obligations[id.issuer_id]);
            let obligation = updated.accept_loss(i, now);
            owed.push(obligation);
            assert(owed.deep_view() =~= before.push(obligation@));
            self.obligations.insert(loss_decision.identity.issuer_id.clone(), owed);
        } else {
            updated.reject_loss(i);
        }
        self.policies.insert(loss_decision.identity.policy_id.clone(), updated);
        Ok(())
    }

    fn clear_waiting(&mut self, identity: &LossIdentity) -> (r: Result<(), PolicyError>)
        requires
            old(self).wf(),
        ensures
            final(self).wf(),
            (final(self)@, r) == old(self)@.clear_waiting(identity@),
    {
        let waiting = match self.loss_identities.get(&identity.client_id) {
            None => return Err(PolicyError::LossIdentityNotFound),
            Some(w) => w,
        };
        let j = match identity_position(waiting, identity) {
            None => return Err(PolicyError::LossIdentityNotFound),
            Some(j) => j,
        };
        let mut waiting = waiting.clone();
        let ghost before = waiting.deep_view();
        assert(before =~= old(self)@.loss_identities[identity@.client_id]);
        waiting.remove(j);
        assert(waiting.deep_view() =~= before.remove(j as int));
        self.loss_identities.insert(identity.client_id.clone(), waiting);
        Ok(())
    }

    /// The report that an obligation was paid, with a reference to the
    /// payment.
    ///
    /// The caller must be a policy activator. The obligation leaves the policy
    /// and the issuer's index, a payment dated `now` joins the policy's
    /// payments, and the amount comes off the balance. Every refusal leaves
    /// the ledger as it was. Returns the payment.
    pub fn post_payment_made(&mut self, caller: &String, resolve_obligation: ResolveObligation, now: u64) -> (r:
        Result<Payment, PolicyError>)
        requires
            old(self).wf(),
        ensures
            final(self).wf(),
            final(self)@ == old(self)@.pay(
                caller@,
                resolve_obligation.identity@,
                resolve_obligation.payment_proof@,
                now,
            ).0,
            old(self)@.pay(
                caller@,
                resolve_obligation.identity@,
                resolve_obligation.payment_proof@,
                now,
            ).1 matches Ok(v) ==> (r matches Ok(p) && p@ == v),
            old(self)@.pay(
                caller@,
                resolve_obligation.identity@,
                resolve_obligation.payment_proof@,
                now,
            ).1 matches Err(e) ==> r == Err::<Payment, PolicyError>(e),
    {
        if !self.is_policy_activator(caller) {
            return Err(PolicyError::Unauthorized);
        }
        self.settle(resolve_obligation, now)
    }

    fn settle(&mut self, resolve_obligation: ResolveObligation, now: u64) -> (r: Result<
        Payment,
        PolicyError,
    >)
        requires
            old(self).wf(),
        ensures
            final(self).wf(),
            final(self)@ == old(self)@.settle(
                resolve_obligation.identity@,
                resolve_obligation.payment_proof@,
                now,
            ).0,
            old(self)@.settle(
                resolve_obligation.identity@,
                resolve_obligation.payment_proof@,
                now,
            ).1 matches Ok(v) ==> (r matches Ok(p) && p@ == v),
            old(self)@.settle(
                resolve_obligation.identity@,
                resolve_obligation.payment_proof@,
                now,
            ).1 matches Err(e) ==> r == Err::<Payment, PolicyError>(e),
    {
        let ghost id = resolve_obligation.identity@;
        let policy = match self.policies.get(&resolve_obligation.identity.policy_id) {
            None => return Err(PolicyError::PolicyNotFound),
            Some(p) => p,
        };
        let i = match policy.find_obligation(&resolve_obligation.identity) {
            None => return Err(PolicyError::ObligationNotFound),
            Some(i) => i,
        };
        let owed = match self.obligations.get(&resolve_obligation.identity.issuer_id) {
            None => return Err(PolicyError::ObligationNotFoundInIndex),
            Some(o) => o,
        };
        let j = match obligation_position(owed, &resolve_obligation.identity) {
            None => return Err(PolicyError::ObligationNotFoundInIndex),
            Some(j) => j,
        };
        let mut updated = policy.clone();
        let mut owed = owed.clone();
        let ghost before = owed.deep_view();
        assert(before =~= old(self)@.obligations[id.issuer_id]);
        owed.remove(j);
        assert(owed.deep_view() =~= before.remove(j as int));
        let payment = updated.settle_obligation(i, resolve_obligation.payment_proof, now);
        self.policies.insert(resolve_obligation.identity.policy_id.clone(), updated);
        self.obligations.insert(resolve_obligation.identity.issuer_id.clone(), owed);
        Ok(payment)
    }

    /// Asks for the losses of `loss_contexts` to be computed: the request
    /// goes to the claims service named by the last context, and carries all
    /// of them. The ledger is not changed until the answer comes back.
    pub fn compute_loss(&self, loss_contexts: Vec<LossContext>) -> (r: Result<
        LossRequest,
        PolicyError,
    >)
        ensures
            loss_contexts.len() == 0 ==> r == Err::<LossRequest, PolicyError>(
                PolicyError::NoLossContexts,
            ),
            loss_contexts.len() > 0 ==> (r matches Ok(q) && q.claims_manager@
                == loss_contexts@.last().oracle_data.claims_manager@ && q.loss_contexts@
                == loss_contexts@),
    {
        let n = loss_contexts.len();
        if n == 0 {
            return Err(PolicyError::NoLossContexts);
        }
        let claims_manager = loss_contexts[n - 1].oracle_data.claims_manager.clone();
        Ok(LossRequest { claims_manager, loss_contexts })
    }

    /// A copy of the policies.
    fn copy_policies(&self) -> (r: Table<Policy>)
        requires
            self.policies.wf(),
        ensures
            r.wf(),
            r@ == self.policies@,
    {
        let t = &self.policies;
        proof {
            t.lemma_entries();
        }
        let mut r: Table<Policy> = Table::new();
        let mut i: usize = 0;
        while i < t.len()
            invariant
                t.wf(),
                r.wf(),
                i <= t.size(),
                forall|j: int, l: int|
                    0 <= j < l < t.size() ==> #[trigger] t.key_spec(j) != #[trigger] t.key_spec(l),
                forall|k: Seq<char>|
                    #[trigger] r@.contains_key(k) <==> exists|j: int|
                        0 <= j < i && #[trigger] t.key_spec(j) == k,
                forall|j: int|
                    0 <= j < i ==> #[trigger] r@[t.key_spec(j)] == t.value_spec(j)@,
            decreases t.size() - i,
        {
            let key = t.key_at(i).clone();
            let value = t.value_at(i).clone();
            let ghost before = r@;
            r.insert(key, value);
            assert forall|k: Seq<char>| #[trigger] r@.contains_key(k) implies exists|j: int|
                0 <= j < i + 1 && #[trigger] t.key_spec(j) == k by {
                if k != t.key_spec(i as int) {
                    assert(before.contains_key(k));
                }
            }
            assert forall|k: Seq<char>|
                (exists|j: int| 0 <= j < i + 1 && #[trigger] t.key_spec(j) == k) implies #[trigger] r@.contains_key(k) by {
                let j = choose|j: int| 0 <= j < i + 1 && #[trigger] t.key_spec(j) == k;
                if j < i {
                    assert(before.contains_key(k));
                }
            }
            assert forall|j: int| 0 <= j < i + 1 implies #[trigger] r@[t.key_spec(j)]
                == t.value_spec(j)@ by {
                if j < i {
                    assert(t.key_spec(j) != t.key_spec(i as int));
                }
            }
            i = i + 1;
        }
        assert forall|k: Seq<char>| #[trigger] r@.contains_key(k) implies t@.contains_key(k)
            && r@[k] == t@[k] by {
            let j = choose|j: int| 0 <= j < i && #[trigger] t.key_spec(j) == k;
            assert(t@.contains_key(t.key_spec(j)));
        }
        assert forall|k: Seq<char>| #[trigger] t@.contains_key(k) implies r@.contains_key(k) by {
            assert(t@.contains_key(k));
            let j = choose|j: int| 0 <= j < t.size() && #[trigger] t.key_spec(j) == k;
        }
        assert(r@ =~= t@);
        r
    }

    /// Applies the answer of a remote loss computation.
    ///
    /// Each computed loss joins the computed losses of its policy, its amount
    /// comes off the pending balance, and its identity joins the client's
    /// list of losses awaiting a decision; a loss for a policy that is not
    /// stored is passed over. The batch is applied whole or not at all: a
    /// failed call, an unreadable answer, or a loss larger than what is then
    /// pending on its policy leaves the ledger as it was. Nothing here
    /// detects an answer that is delivered twice. Returns the computed losses.
    pub fn compute_loss_callback(&mut self, outcome: LossComputation) -> (r: Result<
        Vec<ComputedLoss>,
        PolicyError,
    >)
        requires
            old(self).wf(),
        ensures
            final(self).wf(),
            outcome is Failed ==> r == Err::<Vec<ComputedLoss>, PolicyError>(
                PolicyError::RemoteCallFailed,
            ) && final(self)@ == old(self)@,
            outcome is Malformed ==> r == Err::<Vec<ComputedLoss>, PolicyError>(
                PolicyError::MalformedRemoteResult,
            ) && final(self)@ == old(self)@,
            outcome matches LossComputation::Computed(losses) ==> final(self)@ == old(
                self,
            )@.receive_losses(losses.deep_view()).0 && (old(self)@.receive_losses(
                losses.deep_view(),
            ).1 is Ok ==> (r matches Ok(v) && v.deep_view() == losses.deep_view())) && (old(
                self,
            )@.receive_losses(losses.deep_view()).1 is Err ==> r == Err::<
                Vec<ComputedLoss>,
                PolicyError,
            >(PolicyError::PendingBalanceExceeded)),
    {
        let losses = match outcome {
            LossComputation::Failed => return Err(PolicyError::RemoteCallFailed),
            LossComputation::Malformed => return Err(PolicyError::MalformedRemoteResult),
            LossComputation::Computed(losses) => losses,
        };
        match self.receive_losses(&losses) {
            Ok(()) => Ok(losses),
            Err(e) => Err(e),
        }
    }

    fn receive_losses(&mut self, losses: &Vec<ComputedLoss>) -> (r: Result<(), PolicyError>)
        requires
            old(self).wf(),
        ensures
            final(self).wf(),
            (final(self)@, r) == old(self)@.receive_losses(losses.deep_view()),
    {
        let ghost s = losses.deep_view();
        let ghost start = self@.policies;
        let mut work = self.copy_policies();
        let mut i: usize = 0;
        while i < losses.len()
            invariant
                s == losses.deep_view(),
                i <= losses.len(),
                work.wf(),
                apply_losses(start, s.take(i as int)) == Some(work@),
                self.wf(),
                self@ == old(self)@,
                start == old(self)@.policies,
                forall|k: Seq<char>| #[trigger]
                    work@.contains_key(k) ==> work@[k].wf() && work@[k].policy_id == k,
            decreases losses.len() - i,
        {
            let loss = &losses[i];
            assert(s.take(i + 1).drop_last() =~= s.take(i as int));
            assert(s.take(i + 1).last() == loss@);
            match work.get(&loss.identity.policy_id) {
                None => {},
                Some(p) => {
                    if loss.calculations.amount_due > p.pending_balance() {
                        proof {
                            assert(work@[loss@.identity.policy_id] == p@);
                            assert(apply_loss(work@, loss@) is None);
                            assert(apply_losses(start, s.take(i + 1)) == apply_loss(work@, loss@));
                            lemma_apply_losses_stuck(start, s, i + 1);
                        }
                        return Err(PolicyError::PendingBalanceExceeded);
                    }
                    let mut updated = p.clone();
                    updated.record_loss(loss.clone());
                    work.insert(loss.identity.policy_id.clone(), updated);
                },
            }
            i = i + 1;
        }
        assert(s.take(i as int) =~= s);
        proof {
            lemma_apply_losses_keeps_keys(start, s);
        }
        self.policies = work;
        let ghost waiting = self@.loss_identities;
        let ghost applied = self@;
        let mut j: usize = 0;
        while j < losses.len()
            invariant
                s == losses.deep_view(),
                j <= losses.len(),
                self.wf(),
                self@.policies.dom() == start.dom(),
                self@.loss_identities == note_all_waiting(waiting, start, s.take(j as int)),
                self@ == (PolicyManagerView { loss_identities: self@.loss_identities, ..applied }),
            decreases losses.len() - j,
        {
            let loss = &losses[j];
            assert(s.take(j + 1).drop_last() =~= s.take(j as int));
            assert(s.take(j + 1).last() == loss@);
            if self.policies.get(&loss.identity.policy_id).is_some() {
                let id = loss.identity.clone();
                let c = loss.identity.client_id.clone();
                let list = match self.loss_identities.get(&c) {
                    Some(w) => {
                        let mut list = w.clone();
                        let ghost before = list.deep_view();
                        assert(before =~= self@.loss_identities[c@]);
                        list.push(id);
                        assert(list.deep_view() =~= before.push(loss@.identity));
                        list
                    },
                    None => {
                        let mut list: Vec<LossIdentity> = Vec::new();
                        list.push(id);
                        assert(list.deep_view() =~= seq![loss@.identity]);
                        list
                    },
                };
                self.loss_identities.insert(c, list);
            }
            j = j + 1;
        }
        assert(s.take(j as int) =~= s);
        Ok(())
    }
}

} // verus!
