//! A policy and the movements of its losses between the lists it keeps.
use vstd::prelude::*;

use crate::records::{
    ComputedLoss, ComputedLossView, Location, LossIdentity, LossIdentityView, Obligation,
    ObligationView, Payment, PaymentView, Quote, QuoteView, User, UserView,
};

verus! {

/// The sum of a sequence of amounts.
pub open spec fn total(s: Seq<u64>) -> int
    decreases s.len(),
{
    if s.len() == 0 {
        0
    } else {
        total(s.drop_last()) + s.last()
    }
}

pub proof fn lemma_total_push(s: Seq<u64>, x: u64)
    ensures
        total(s.push(x)) == total(s) + x,
{
    assert(s.push(x).drop_last() =~= s);
}

pub proof fn lemma_total_nonneg(s: Seq<u64>)
    ensures
        total(s) >= 0,
    decreases s.len(),
{
    if s.len() > 0 {
        lemma_total_nonneg(s.drop_last());
    }
}

pub proof fn lemma_total_remove(s: Seq<u64>, i: int)
    requires
        0 <= i < s.len(),
    ensures
        total(s) == total(s.remove(i)) + s[i],
    decreases s.len(),
{
    if i == s.len() - 1 {
        assert(s.remove(i) =~= s.drop_last());
    } else {
        lemma_total_remove(s.drop_last(), i);
        assert(s.remove(i).drop_last() =~= s.drop_last().remove(i));
    }
}

/// The amounts due of a sequence of computed losses.
pub open spec fn loss_amounts(s: Seq<ComputedLossView>) -> Seq<u64> {
    s.map_values(|c: ComputedLossView| c.calculations.amount_due)
}

/// The amounts due of a sequence of obligations.
pub open spec fn obligation_amounts(s: Seq<ObligationView>) -> Seq<u64> {
    s.map_values(|o: ObligationView| o.computed_loss.calculations.amount_due)
}

/// The identities of a sequence of computed losses.
pub open spec fn loss_identities(s: Seq<ComputedLossView>) -> Seq<LossIdentityView> {
    s.map_values(|c: ComputedLossView| c.identity)
}

/// The identities of a sequence of obligations.
pub open spec fn obligation_identities(s: Seq<ObligationView>) -> Seq<LossIdentityView> {
    s.map_values(|o: ObligationView| o.computed_loss.identity)
}

/// The first position of `x` in `s`, or -1 where `x` does not occur.
pub open spec fn first_index<A>(s: Seq<A>, x: A) -> int {
    if s.contains(x) {
        choose|i: int| 0 <= i < s.len() && s[i] == x && forall|j: int| 0 <= j < i ==> s[j] != x
    } else {
        -1
    }
}

/// `i` is the first position of `x` in `s`.
pub proof fn lemma_first_index<A>(s: Seq<A>, x: A, i: int)
    requires
        0 <= i < s.len(),
        s[i] == x,
        forall|j: int| 0 <= j < i ==> s[j] != x,
    ensures
        first_index(s, x) == i,
{
    assert(s.contains(x));
    let k = choose|k: int| 0 <= k < s.len() && s[k] == x && forall|j: int| 0 <= j < k ==> s[j] != x;
    if k < i {
        assert(s[k] != x);
    } else if i < k {
        assert(s[i] != x);
    }
}

/// The mathematical value of a [`Policy`].
pub ghost struct PolicyView {
    pub policy_id: Seq<char>,
    pub balance: u64,
    pub pending_balance: u64,
    pub quote: QuoteView,
    pub start_date: u64,
    pub end_date: u64,
    pub active: bool,
    pub issuer: UserView,
    pub client: UserView,
    pub claims_manager: Seq<char>,
    pub policy_type: u8,
    pub max_payout: u64,
    pub location: Location,
    pub payments: Seq<PaymentView>,
    pub obligations: Seq<ObligationView>,
    pub rejected_losses: Seq<ComputedLossView>,
    pub computed_losses: Seq<ComputedLossView>,
}

impl PolicyView {
    /// The balance stays within the cover, and what is pending is the balance
    /// less every loss that is computed or owed.
    pub open spec fn wf(self) -> bool {
        &&& self.balance <= self.quote.max_payout
        &&& self.pending_balance + total(loss_amounts(self.computed_losses)) + total(
            obligation_amounts(self.obligations),
        ) == self.balance
    }

    /// A loss computed for this policy has come in.
    pub open spec fn record_loss(self, c: ComputedLossView) -> PolicyView {
        PolicyView {
            computed_losses: self.computed_losses.push(c),
            pending_balance: (self.pending_balance - c.calculations.amount_due) as u64,
            ..self
        }
    }

    /// The client accepted the computed loss at `i`, at time `now`.
    pub open spec fn accept(self, i: int, now: u64) -> PolicyView {
        PolicyView {
            computed_losses: self.computed_losses.remove(i),
            obligations: self.obligations.push(
                ObligationView { computed_loss: self.computed_losses[i], contract_update_time: now },
            ),
            ..self
        }
    }

    /// The client rejected the computed loss at `i`.
    pub open spec fn reject(self, i: int) -> PolicyView {
        PolicyView {
            computed_losses: self.computed_losses.remove(i),
            rejected_losses: self.rejected_losses.push(self.computed_losses[i]),
            pending_balance: (self.pending_balance
                + self.computed_losses[i].calculations.amount_due) as u64,
            ..self
        }
    }

    /// The payment of the obligation at `i` was made, with `proof`, reported
    /// at time `now`.
    pub open spec fn settle(self, i: int, proof: Seq<char>, now: u64) -> PolicyView {
        PolicyView {
            obligations: self.obligations.remove(i),
            payments: self.payments.push(
                PaymentView {
                    contract_update_time: now,
                    payment_proof: proof,
                    obligation: self.obligations[i],
                },
            ),
            balance: (self.balance - self.obligations[i].computed_loss.calculations.amount_due) as u64,
            ..self
        }
    }
}

/// A prefix of a sequence of amounts sums to no more than the whole.
pub proof fn lemma_total_take(s: Seq<u64>, k: int)
    requires
        0 <= k <= s.len(),
    ensures
        total(s.take(k)) <= total(s),
    decreases s.len(),
{
    if k == s.len() {
        assert(s.take(k) =~= s);
    } else {
        assert(s.drop_last().take(k) =~= s.take(k));
        lemma_total_take(s.drop_last(), k);
    }
}

/// Recording a loss that the pending balance covers keeps a policy well
/// formed.
pub proof fn lemma_record_loss_wf(p: PolicyView, c: ComputedLossView)
    requires
        p.wf(),
        c.calculations.amount_due <= p.pending_balance,
    ensures
        p.record_loss(c).wf(),
{
    assert(loss_amounts(p.computed_losses.push(c)) =~= loss_amounts(p.computed_losses).push(
        c.calculations.amount_due,
    ));
    lemma_total_push(loss_amounts(p.computed_losses), c.calculations.amount_due);
}

/// Accepting a computed loss keeps a policy well formed.
pub proof fn lemma_accept_wf(p: PolicyView, i: int, now: u64)
    requires
        p.wf(),
        0 <= i < p.computed_losses.len(),
    ensures
        p.accept(i, now).wf(),
{
    let o = ObligationView { computed_loss: p.computed_losses[i], contract_update_time: now };
    assert(loss_amounts(p.computed_losses.remove(i)) =~= loss_amounts(p.computed_losses).remove(i));
    lemma_total_remove(loss_amounts(p.computed_losses), i);
    assert(obligation_amounts(p.obligations.push(o)) =~= obligation_amounts(p.obligations).push(
        o.computed_loss.calculations.amount_due,
    ));
    lemma_total_push(obligation_amounts(p.obligations), o.computed_loss.calculations.amount_due);
}

/// Rejecting a computed loss keeps a policy well formed, and its amount fits
/// back into the pending balance.
pub proof fn lemma_reject_wf(p: PolicyView, i: int)
    requires
        p.wf(),
        0 <= i < p.computed_losses.len(),
    ensures
        p.pending_balance + p.computed_losses[i].calculations.amount_due <= p.balance,
        p.reject(i).wf(),
{
    assert(loss_amounts(p.computed_losses)[i] == p.computed_losses[i].calculations.amount_due);
    lemma_total_remove(loss_amounts(p.computed_losses), i);
    lemma_total_nonneg(loss_amounts(p.computed_losses).remove(i));
    lemma_total_nonneg(obligation_amounts(p.obligations));
    assert(loss_amounts(p.computed_losses.remove(i)) =~= loss_amounts(p.computed_losses).remove(i));
}

/// Paying an obligation keeps a policy well formed, and its amount is covered
/// by the balance.
pub proof fn lemma_settle_wf(p: PolicyView, i: int, proof: Seq<char>, now: u64)
    requires
        p.wf(),
        0 <= i < p.obligations.len(),
    ensures
        p.obligations[i].computed_loss.calculations.amount_due <= p.balance,
        p.settle(i, proof, now).wf(),
{
    assert(obligation_amounts(p.obligations)[i]
        == p.obligations[i].computed_loss.calculations.amount_due);
    lemma_total_remove(obligation_amounts(p.obligations), i);
    lemma_total_nonneg(obligation_amounts(p.obligations).remove(i));
    lemma_total_nonneg(loss_amounts(p.computed_losses));
    assert(obligation_amounts(p.obligations.remove(i)) =~= obligation_amounts(p.obligations).remove(
        i,
    ));
}

/// The sum of the amounts of `v`, where it is at most `cap`.
fn losses_total(v: &Vec<ComputedLoss>, cap: u64) -> (r: Option<u64>)
    ensures
        r matches Some(t) ==> t == total(loss_amounts(v.deep_view())) && t <= cap,
        r is None ==> total(loss_amounts(v.deep_view())) > cap,
{
    let ghost a = loss_amounts(v.deep_view());
    let mut acc: u64 = 0;
    let mut i: usize = 0;
    while i < v.len()
        invariant
            a == loss_amounts(v.deep_view()),
            i <= v.len(),
            acc == total(a.take(i as int)),
            acc <= cap,
        decreases v.len() - i,
    {
        assert(a.take(i + 1).drop_last() =~= a.take(i as int));
        let amount = v[i].calculations.amount_due;
        if amount > cap - acc {
            proof {
                lemma_total_take(a, i + 1);
            }
            return None;
        }
        acc = acc + amount;
        i = i + 1;
    }
    assert(a.take(i as int) =~= a);
    Some(acc)
}

/// The sum of the amounts of `v`, where it is at most `cap`.
fn obligations_total(v: &Vec<Obligation>, cap: u64) -> (r: Option<u64>)
    ensures
        r matches Some(t) ==> t == total(obligation_amounts(v.deep_view())) && t <= cap,
        r is None ==> total(obligation_amounts(v.deep_view())) > cap,
{
    let ghost a = obligation_amounts(v.deep_view());
    let mut acc: u64 = 0;
    let mut i: usize = 0;
    while i < v.len()
        invariant
            a == obligation_amounts(v.deep_view()),
            i <= v.len(),
            acc == total(a.take(i as int)),
            acc <= cap,
        decreases v.len() - i,
    {
        assert(a.take(i + 1).drop_last() =~= a.take(i as int));
        let amount = v[i].computed_loss.calculations.amount_due;
        if amount > cap - acc {
            proof {
                lemma_total_take(a, i + 1);
            }
            return None;
        }
        acc = acc + amount;
        i = i + 1;
    }
    assert(a.take(i as int) =~= a);
    Some(acc)
}

/// Every field of a policy, for building one from a stored record and for
/// taking one apart.
#[derive(Debug)]
pub struct PolicyParts {
    pub policy_id: String,
    pub balance: u64,
    pub pending_balance: u64,
    pub quote: Quote,
    pub start_date: u64,
    pub end_date: u64,
    pub active: bool,
    pub issuer: User,
    pub client: User,
    pub claims_manager: String,
    pub policy_type: u8,
    pub max_payout: u64,
    pub location: Location,
    pub payments: Vec<Payment>,
    pub obligations: Vec<Obligation>,
    pub rejected_losses: Vec<ComputedLoss>,
    pub computed_losses: Vec<ComputedLoss>,
}

impl View for PolicyParts {
    type V = PolicyView;

    open spec fn view(&self) -> PolicyView {
        PolicyView {
            policy_id: self.policy_id@,
            balance: self.balance,
            pending_balance: self.pending_balance,
            quote: self.quote@,
            start_date: self.start_date,
            end_date: self.end_date,
            active: self.active,
            issuer: self.issuer@,
            client: self.client@,
            claims_manager: self.claims_manager@,
            policy_type: self.policy_type,
            max_payout: self.max_payout,
            location: self.location,
            payments: self.payments.deep_view(),
            obligations: self.obligations.deep_view(),
            rejected_losses: self.rejected_losses.deep_view(),
            computed_losses: self.computed_losses.deep_view(),
        }
    }
}

/// An active insurance contract with its balance and the losses against it.
#[derive(Debug)]
pub struct Policy {
    policy_id: String,
    balance: u64,
    pending_balance: u64,
    quote: Quote,
    start_date: u64,
    end_date: u64,
    active: bool,
    issuer: User,
    client: User,
    claims_manager: String,
    policy_type: u8,
    max_payout: u64,
    location: Location,
    payments: Vec<Payment>,
    obligations: Vec<Obligation>,
    rejected_losses: Vec<ComputedLoss>,
    computed_losses: Vec<ComputedLoss>,
}

impl View for Policy {
    type V = PolicyView;

    closed spec fn view(&self) -> PolicyView {
        PolicyView {
            policy_id: self.policy_id@,
            balance: self.balance,
            pending_balance: self.pending_balance,
            quote: self.quote@,
            start_date: self.start_date,
            end_date: self.end_date,
            active: self.active,
            issuer: self.issuer@,
            client: self.client@,
            claims_manager: self.claims_manager@,
            policy_type: self.policy_type,
            max_payout: self.max_payout,
            location: self.location,
            payments: self.payments.deep_view(),
            obligations: self.obligations.deep_view(),
            rejected_losses: self.rejected_losses.deep_view(),
            computed_losses: self.computed_losses.deep_view(),
        }
    }
}

impl DeepView for Policy {
    type V = PolicyView;

    open spec fn deep_view(&self) -> PolicyView {
        self@
    }
}

impl Clone for Policy {
    fn clone(&self) -> (r: Self)
        ensures
            r@ == self@,
    {
        let payments = self.payments.clone();
        let obligations = self.obligations.clone();
        let rejected_losses = self.rejected_losses.clone();
        let computed_losses = self.computed_losses.clone();
        assert(payments.deep_view() =~= self.payments.deep_view());
        assert(obligations.deep_view() =~= self.obligations.deep_view());
        assert(rejected_losses.deep_view() =~= self.rejected_losses.deep_view());
        assert(computed_losses.deep_view() =~= self.computed_losses.deep_view());
        Policy {
            policy_id: self.policy_id.clone(),
            balance: self.balance,
            pending_balance: self.pending_balance,
            quote: self.quote.clone(),
            start_date: self.start_date,
            end_date: self.end_date,
            active: self.active,
            issuer: self.issuer.clone(),
            client: self.client.clone(),
            claims_manager: self.claims_manager.clone(),
            policy_type: self.policy_type,
            max_payout: self.max_payout,
            location: self.location,
            payments,
            obligations,
            rejected_losses,
            computed_losses,
        }
    }
}

impl Policy {
    /// A fresh policy for an accepted quote: the whole cover is available,
    /// coverage runs over the quote's period, and no loss is recorded yet.
    pub fn new(policy_id: String, quote: Quote) -> (r: Policy)
        ensures
            r@.wf(),
            r@ == (PolicyView {
                policy_id: policy_id@,
                balance: quote@.max_payout,
                pending_balance: quote@.max_payout,
                quote: quote@,
                start_date: quote@.coverage_period[0],
                end_date: quote@.coverage_period[1],
                active: true,
                issuer: quote@.issuer,
                client: quote@.client,
                claims_manager: quote@.claims_manager,
                policy_type: quote@.policy_type,
                max_payout: quote@.max_payout,
                location: quote@.location,
                payments: Seq::empty(),
                obligations: Seq::empty(),
                rejected_losses: Seq::empty(),
                computed_losses: Seq::empty(),
            }),
    {
        let r = Policy {
            policy_id,
            balance: quote.max_payout,
            pending_balance: quote.max_payout,
            start_date: quote.coverage_period[0],
            end_date: quote.coverage_period[1],
            active: true,
            issuer: quote.issuer.clone(),
            client: quote.client.clone(),
            claims_manager: quote.claims_manager.clone(),
            policy_type: quote.policy_type,
            max_payout: quote.max_payout,
            location: quote.location,
            quote,
            payments: Vec::new(),
            obligations: Vec::new(),
            rejected_losses: Vec::new(),
            computed_losses: Vec::new(),
        };
        assert(r@.payments =~= Seq::<PaymentView>::empty());
        assert(r@.obligations =~= Seq::<ObligationView>::empty());
        assert(r@.rejected_losses =~= Seq::<ComputedLossView>::empty());
        assert(r@.computed_losses =~= Seq::<ComputedLossView>::empty());
        assert(loss_amounts(r@.computed_losses) =~= Seq::<u64>::empty());
        assert(obligation_amounts(r@.obligations) =~= Seq::<u64>::empty());
        r
    }

    /// The policy that `parts` describe, where they are consistent: the
    /// balance within the cover, and the pending balance equal to the
    /// balance less the computed losses and the obligations.
    pub fn from_parts(parts: PolicyParts) -> (r: Option<Policy>)
        ensures
            r is Some <==> parts@.wf(),
            r matches Some(p) ==> p@ == parts@,
    {
        if parts.balance > parts.quote.max_payout {
            return None;
        }
        let computed = match losses_total(&parts.computed_losses, parts.balance) {
            Some(t) => t,
            None => {
                proof {
                    lemma_total_nonneg(obligation_amounts(parts@.obligations));
                }
                return None;
            },
        };
        let owed = match obligations_total(&parts.obligations, parts.balance) {
            Some(t) => t,
            None => {
                proof {
                    lemma_total_nonneg(loss_amounts(parts@.computed_losses));
                }
                return None;
            },
        };
        if parts.pending_balance as u128 + computed as u128 + owed as u128 != parts.balance as u128 {
            return None;
        }
        Some(
            Policy {
                policy_id: parts.policy_id,
                balance: parts.balance,
                pending_balance: parts.pending_balance,
                quote: parts.quote,
                start_date: parts.start_date,
                end_date: parts.end_date,
                active: parts.active,
                issuer: parts.issuer,
                client: parts.client,
                claims_manager: parts.claims_manager,
                policy_type: parts.policy_type,
                max_payout: parts.max_payout,
                location: parts.location,
                payments: parts.payments,
                obligations: parts.obligations,
                rejected_losses: parts.rejected_losses,
                computed_losses: parts.computed_losses,
            },
        )
    }

    /// Every field of the policy.
    pub fn into_parts(self) -> (r: PolicyParts)
        ensures
            r@ == self@,
            r@.wf() == self@.wf(),
    {
        PolicyParts {
            policy_id: self.policy_id,
            balance: self.balance,
            pending_balance: self.pending_balance,
            quote: self.quote,
            start_date: self.start_date,
            end_date: self.end_date,
            active: self.active,
            issuer: self.issuer,
            client: self.client,
            claims_manager: self.claims_manager,
            policy_type: self.policy_type,
            max_payout: self.max_payout,
            location: self.location,
            payments: self.payments,
            obligations: self.obligations,
            rejected_losses: self.rejected_losses,
            computed_losses: self.computed_losses,
        }
    }

    pub fn policy_id(&self) -> (r: &String)
        ensures
            r@ == self@.policy_id,
    {
        &self.policy_id
    }

    pub fn balance(&self) -> (r: u64)
        ensures
            r == self@.balance,
    {
        self.balance
    }

    pub fn pending_balance(&self) -> (r: u64)
        ensures
            r == self@.pending_balance,
    {
        self.pending_balance
    }

    pub fn quote(&self) -> (r: &Quote)
        ensures
            r@ == self@.quote,
    {
        &self.quote
    }

    pub fn start_date(&self) -> (r: u64)
        ensures
            r == self@.start_date,
    {
        self.start_date
    }

    pub fn end_date(&self) -> (r: u64)
        ensures
            r == self@.end_date,
    {
        self.end_date
    }

    pub fn active(&self) -> (r: bool)
        ensures
            r == self@.active,
    {
        self.active
    }

    pub fn issuer(&self) -> (r: &User)
        ensures
            r@ == self@.issuer,
    {
        &self.issuer
    }

    pub fn client(&self) -> (r: &User)
        ensures
            r@ == self@.client,
    {
        &self.client
    }

    pub fn claims_manager(&self) -> (r: &String)
        ensures
            r@ == self@.claims_manager,
    {
        &self.claims_manager
    }

    pub fn policy_type(&self) -> (r: u8)
        ensures
            r == self@.policy_type,
    {
        self.policy_type
    }

    pub fn max_payout(&self) -> (r: u64)
        ensures
            r == self@.max_payout,
    {
        self.max_payout
    }

    pub fn location(&self) -> (r: Location)
        ensures
            r == self@.location,
    {
        self.location
    }

    pub fn payments(&self) -> (r: &Vec<Payment>)
        ensures
            r.deep_view() == self@.payments,
    {
        &self.payments
    }

    pub fn obligations(&self) -> (r: &Vec<Obligation>)
        ensures
            r.deep_view() == self@.obligations,
    {
        &self.obligations
    }

    pub fn rejected_losses(&self) -> (r: &Vec<ComputedLoss>)
        ensures
            r.deep_view() == self@.rejected_losses,
    {
        &self.rejected_losses
    }

    pub fn computed_losses(&self) -> (r: &Vec<ComputedLoss>)
        ensures
            r.deep_view() == self@.computed_losses,
    {
        &self.computed_losses
    }

    /// The position of the computed loss with this identity, if any.
    pub fn find_computed_loss(&self, identity: &LossIdentity) -> (r: Option<usize>)
        ensures
            r is None <==> !loss_identities(self@.computed_losses).contains(identity@),
            r matches Some(i) ==> i < self@.computed_losses.len()
                && self@.computed_losses[i as int].identity == identity@ && i == first_index(
                loss_identities(self@.computed_losses),
                identity@,
            ),
    {
        let ghost ids = loss_identities(self@.computed_losses);
        let mut i: usize = 0;
        while i < self.computed_losses.len()
            invariant
                ids == loss_identities(self@.computed_losses),
                i <= self.computed_losses.len(),
                forall|j: int| 0 <= j < i ==> ids[j] != identity@,
            decreases self.computed_losses.len() - i,
        {
            if self.computed_losses[i].identity.same_as(identity) {
                proof {
                    lemma_first_index(ids, identity@, i as int);
                }
                return Some(i);
            }
            i = i + 1;
        }
        None
    }

    /// The position of the obligation with this identity, if any.
    pub fn find_obligation(&self, identity: &LossIdentity) -> (r: Option<usize>)
        ensures
            r is None <==> !obligation_identities(self@.obligations).contains(identity@),
            r matches Some(i) ==> i < self@.obligations.len()
                && self@.obligations[i as int].computed_loss.identity == identity@ && i == first_index(
                obligation_identities(self@.obligations),
                identity@,
            ),
    {
        let ghost ids = obligation_identities(self@.obligations);
        let mut i: usize = 0;
        while i < self.obligations.len()
            invariant
                ids == obligation_identities(self@.obligations),
                i <= self.obligations.len(),
                forall|j: int| 0 <= j < i ==> ids[j] != identity@,
            decreases self.obligations.len() - i,
        {
            if self.obligations[i].computed_loss.identity.same_as(identity) {
                proof {
                    lemma_first_index(ids, identity@, i as int);
                }
                return Some(i);
            }
            i = i + 1;
        }
        None
    }

    /// Records a computed loss against the pending balance.
    pub(crate) fn record_loss(&mut self, loss: ComputedLoss)
        requires
            old(self)@.wf(),
            loss.calculations.amount_due <= old(self)@.pending_balance,
        ensures
            final(self)@ == old(self)@.record_loss(loss@),
            final(self)@.wf(),
    {
        proof {
            lemma_record_loss_wf(self@, loss@);
        }
        let ghost c = loss@;
        self.pending_balance = self.pending_balance - loss.calculations.amount_due;
        self.computed_losses.push(loss);
        assert(self@.computed_losses =~= old(self)@.computed_losses.push(c));
    }

    /// Turns the computed loss at `i` into an obligation, dated `now`, and
    /// returns a copy of the obligation.
    pub(crate) fn accept_loss(&mut self, i: usize, now: u64) -> (r: Obligation)
        requires
            old(self)@.wf(),
            i < old(self)@.computed_losses.len(),
        ensures
            final(self)@ == old(self)@.accept(i as int, now),
            final(self)@.wf(),
            r@ == (ObligationView {
                computed_loss: old(self)@.computed_losses[i as int],
                contract_update_time: now,
            }),
    {
        proof {
            lemma_accept_wf(self@, i as int, now);
        }
        let loss = self.computed_losses.remove(i);
        let obligation = Obligation { computed_loss: loss, contract_update_time: now };
        let r = obligation.clone();
        self.obligations.push(obligation);
        assert(self@.computed_losses =~= old(self)@.computed_losses.remove(i as int));
        assert(self@.obligations =~= old(self)@.obligations.push(r@));
        r
    }

    /// Moves the computed loss at `i` to the rejected losses and gives its
    /// amount back to the pending balance.
    pub(crate) fn reject_loss(&mut self, i: usize)
        requires
            old(self)@.wf(),
            i < old(self)@.computed_losses.len(),
        ensures
            final(self)@ == old(self)@.reject(i as int),
            final(self)@.wf(),
    {
        proof {
            lemma_reject_wf(self@, i as int);
        }
        let loss = self.computed_losses.remove(i);
        self.pending_balance = self.pending_balance + loss.calculations.amount_due;
        self.rejected_losses.push(loss);
        let ghost old_c = old(self)@.computed_losses;
        assert(self@.computed_losses =~= old_c.remove(i as int));
        assert(self@.rejected_losses =~= old(self)@.rejected_losses.push(old_c[i as int]));
    }

    /// Resolves the obligation at `i` into a payment with `payment_proof`,
    /// dated `now`, takes its amount off the balance, and returns a copy of
    /// the payment.
    pub(crate) fn settle_obligation(&mut self, i: usize, payment_proof: String, now: u64) -> (r: Payment)
        requires
            old(self)@.wf(),
            i < old(self)@.obligations.len(),
        ensures
            final(self)@ == old(self)@.settle(i as int, payment_proof@, now),
            final(self)@.wf(),
            r@ == final(self)@.payments.last(),
    {
        proof {
            lemma_settle_wf(self@, i as int, payment_proof@, now);
        }
        let obligation = self.obligations.remove(i);
        self.balance = self.balance - obligation.computed_loss.calculations.amount_due;
        let payment = Payment { contract_update_time: now, payment_proof, obligation };
        let r = payment.clone();
        self.payments.push(payment);
        assert(self@.obligations =~= old(self)@.obligations.remove(i as int));
        assert(self@.payments =~= old(self)@.payments.push(r@));
        r
    }
}

} // verus!
