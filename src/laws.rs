//! What holds of the ledger across its operations.
use vstd::prelude::*;

use crate::policy::{
    first_index, lemma_accept_wf, lemma_first_index, lemma_record_loss_wf, lemma_reject_wf,
    lemma_settle_wf, loss_identities, obligation_identities, PolicyView,
};
use crate::policy_manager::{apply_losses, lemma_apply_losses_keeps_keys, PolicyManagerView};
use crate::records::{ComputedLossView, LossIdentityView, ObligationView};

verus! {

/// Where `x` occurs in `s`, its first position is a position of `x`, with no
/// `x` before it.
pub proof fn lemma_first_index_found<A>(s: Seq<A>, x: A)
    requires
        s.contains(x),
    ensures
        0 <= first_index(s, x) < s.len(),
        s[first_index(s, x)] == x,
        forall|j: int| 0 <= j < first_index(s, x) ==> s[j] != x,
{
    s.index_of_first_ensures(x);
    let i = s.index_of_first(x)->Some_0;
    lemma_first_index(s, x, i);
}

/// Each policy's balance lies between zero and the cover of its quote.
pub open spec fn balances_within_cover(m: PolicyManagerView) -> bool {
    forall|k: Seq<char>| #[trigger]
        m.policies.contains_key(k) ==> 0 <= m.policies[k].balance
            <= m.policies[k].quote.max_payout
}

proof fn lemma_wf_within_cover(m: PolicyManagerView)
    requires
        m.wf(),
    ensures
        balances_within_cover(m),
{
    assert forall|k: Seq<char>| #[trigger] m.policies.contains_key(k) implies 0
        <= m.policies[k].balance <= m.policies[k].quote.max_payout by {
        assert(m.policies[k].wf());
    }
}

proof fn lemma_decide_wf(m: PolicyManagerView, caller: Seq<char>, accept: bool, id: LossIdentityView, now: u64)
    requires
        m.wf(),
    ensures
        m.decide(caller, accept, id, now).0.wf(),
{
    let k = id.policy_id;
    if m.policies.contains_key(k) {
        let p = m.policies[k];
        let ids = loss_identities(p.computed_losses);
        if ids.contains(id) {
            lemma_first_index_found(ids, id);
            let i = first_index(ids, id);
            lemma_accept_wf(p, i, now);
            lemma_reject_wf(p, i);
        }
    }
}

proof fn lemma_pay_wf(m: PolicyManagerView, caller: Seq<char>, id: LossIdentityView, proof: Seq<char>, now: u64)
    requires
        m.wf(),
    ensures
        m.pay(caller, id, proof, now).0.wf(),
{
    let k = id.policy_id;
    if m.policies.contains_key(k) {
        let p = m.policies[k];
        let ids = obligation_identities(p.obligations);
        if ids.contains(id) {
            lemma_first_index_found(ids, id);
            lemma_settle_wf(p, first_index(ids, id), proof, now);
        }
    }
}

proof fn lemma_apply_losses_wf(policies: Map<Seq<char>, PolicyView>, s: Seq<ComputedLossView>)
    requires
        (PolicyManagerView {
            policies,
            master_admin: Seq::empty(),
            new_master_admin: None,
            policy_activators: Seq::empty(),
            obligations: Map::empty(),
            loss_identities: Map::empty(),
        }).wf(),
        apply_losses(policies, s) is Some,
    ensures
        forall|k: Seq<char>| #[trigger]
            apply_losses(policies, s)->Some_0.contains_key(k) ==> apply_losses(
                policies,
                s,
            )->Some_0[k].wf() && apply_losses(policies, s)->Some_0[k].policy_id == k,
    decreases s.len(),
{
    if s.len() > 0 {
        lemma_apply_losses_wf(policies, s.drop_last());
        let q = apply_losses(policies, s.drop_last())->Some_0;
        let c = s.last();
        let k = c.identity.policy_id;
        if q.contains_key(k) && c.calculations.amount_due <= q[k].pending_balance {
            lemma_record_loss_wf(q[k], c);
        }
    }
}

/// Every operation of the ledger keeps each policy well formed, and so its
/// balance between zero and the cover of its quote: saving a well-formed
/// policy, deciding on a loss, reporting a payment, and taking in computed
/// losses.
pub proof fn law_balance_within_cover(
    m: PolicyManagerView,
    caller: Seq<char>,
    policy: PolicyView,
    accept: bool,
    id: LossIdentityView,
    proof: Seq<char>,
    now: u64,
    losses: Seq<ComputedLossView>,
)
    requires
        m.wf(),
        policy.wf(),
    ensures
        balances_within_cover(m),
        m.save(caller, policy).0.wf(),
        balances_within_cover(m.save(caller, policy).0),
        m.decide(caller, accept, id, now).0.wf(),
        balances_within_cover(m.decide(caller, accept, id, now).0),
        m.pay(caller, id, proof, now).0.wf(),
        balances_within_cover(m.pay(caller, id, proof, now).0),
        m.receive_losses(losses).0.wf(),
        balances_within_cover(m.receive_losses(losses).0),
{
    lemma_wf_within_cover(m);
    lemma_wf_within_cover(m.save(caller, policy).0);
    lemma_decide_wf(m, caller, accept, id, now);
    lemma_wf_within_cover(m.decide(caller, accept, id, now).0);
    lemma_pay_wf(m, caller, id, proof, now);
    lemma_wf_within_cover(m.pay(caller, id, proof, now).0);
    if apply_losses(m.policies, losses) is Some {
        let bare = PolicyManagerView {
            policies: m.policies,
            master_admin: Seq::empty(),
            new_master_admin: None,
            policy_activators: Seq::empty(),
            obligations: Map::empty(),
            loss_identities: Map::empty(),
        };
        assert(bare.wf());
        lemma_apply_losses_wf(m.policies, losses);
    }
    lemma_wf_within_cover(m.receive_losses(losses).0);
}

/// A loss is accepted and the obligation it became is then paid: the
/// payment is accepted, exactly the loss's amount comes off the policy's
/// balance, and the policy's obligations and the issuer's index are again
/// what they were before the acceptance. The loss must not already be owed.
pub proof fn law_accept_then_pay(
    m: PolicyManagerView,
    client_admin: Seq<char>,
    activator: Seq<char>,
    id: LossIdentityView,
    proof: Seq<char>,
    accepted_at: u64,
    paid_at: u64,
)
    requires
        m.wf(),
        m.decide(client_admin, true, id, accepted_at).1 is Ok,
        m.policy_activators.contains(activator),
        !obligation_identities(m.policies[id.policy_id].obligations).contains(id),
        !obligation_identities(m.obligations[id.issuer_id]).contains(id),
    ensures
        ({
            let p = m.policies[id.policy_id];
            let amount = p.computed_losses[first_index(
                loss_identities(p.computed_losses),
                id,
            )].calculations.amount_due;
            let paid = m.decide(client_admin, true, id, accepted_at).0.pay(
                activator,
                id,
                proof,
                paid_at,
            );
            &&& paid.1 is Ok
            &&& paid.0.policies[id.policy_id].balance == p.balance - amount
            &&& paid.0.policies[id.policy_id].obligations == p.obligations
            &&& paid.0.obligations[id.issuer_id] == m.obligations[id.issuer_id]
        }),
{
    let k = id.policy_id;
    let p = m.policies[k];
    let ids = loss_identities(p.computed_losses);
    lemma_first_index_found(ids, id);
    let i = first_index(ids, id);
    let o = ObligationView { computed_loss: p.computed_losses[i], contract_update_time: accepted_at };
    assert(o.computed_loss.identity == id);
    let m1 = m.decide(client_admin, true, id, accepted_at).0;
    let p1 = m1.policies[k];
    assert(p1 == p.accept(i, accepted_at));
    assert(m1.obligations[id.issuer_id] == m.obligations[id.issuer_id].push(o));
    let owed = m.obligations[id.issuer_id];
    assert(obligation_identities(p1.obligations) =~= obligation_identities(p.obligations).push(id));
    assert(obligation_identities(owed.push(o)) =~= obligation_identities(owed).push(id));
    lemma_first_index(obligation_identities(p1.obligations), id, p.obligations.len() as int);
    lemma_first_index(obligation_identities(owed.push(o)), id, owed.len() as int);
    assert(obligation_identities(p1.obligations).contains(id)) by {
        assert(obligation_identities(p1.obligations)[p.obligations.len() as int] == id);
    }
    assert(obligation_identities(owed.push(o)).contains(id)) by {
        assert(obligation_identities(owed.push(o))[owed.len() as int] == id);
    }
    assert(p1.obligations.remove(p.obligations.len() as int) =~= p.obligations);
    assert(owed.push(o).remove(owed.len() as int) =~= owed);
    lemma_accept_wf(p, i, accepted_at);
    lemma_settle_wf(p1, p.obligations.len() as int, proof, paid_at);
    assert(p1.obligations[p.obligations.len() as int] == o);
}

/// No loss awaiting a decision on policy `p` is also owed or rejected, and
/// none awaits twice.
pub open spec fn losses_exclusive(p: PolicyView) -> bool {
    let waiting = loss_identities(p.computed_losses);
    &&& waiting.no_duplicates()
    &&& forall|x: LossIdentityView| #[trigger]
        waiting.contains(x) ==> !obligation_identities(p.obligations).contains(x)
            && !loss_identities(p.rejected_losses).contains(x)
}

/// Every policy keeps its losses apart.
pub open spec fn all_exclusive(policies: Map<Seq<char>, PolicyView>) -> bool {
    forall|k: Seq<char>| #[trigger] policies.contains_key(k) ==> losses_exclusive(policies[k])
}

/// The loss `x` is not yet known to policy `p`.
pub open spec fn loss_is_new(p: PolicyView, x: LossIdentityView) -> bool {
    &&& !loss_identities(p.computed_losses).contains(x)
    &&& !obligation_identities(p.obligations).contains(x)
    &&& !loss_identities(p.rejected_losses).contains(x)
}

/// Each loss of `s` is new to its policy, and no two of them share an
/// identity.
pub open spec fn batch_is_new(policies: Map<Seq<char>, PolicyView>, s: Seq<ComputedLossView>) -> bool {
    &&& forall|j: int|
        0 <= j < s.len() && policies.contains_key(#[trigger] s[j].identity.policy_id)
            ==> loss_is_new(policies[s[j].identity.policy_id], s[j].identity)
    &&& forall|j: int, l: int|
        0 <= l < j < s.len() ==> #[trigger] s[l].identity != #[trigger] s[j].identity
}

proof fn lemma_remove_contains<A>(s: Seq<A>, i: int, x: A)
    requires
        0 <= i < s.len(),
        s.remove(i).contains(x),
    ensures
        s.contains(x),
        s.no_duplicates() ==> x != s[i],
{
    let j = choose|j: int| 0 <= j < s.remove(i).len() && s.remove(i)[j] == x;
    if j < i {
        assert(s[j] == x);
    } else {
        assert(s[j + 1] == x);
    }
}

proof fn lemma_remove_no_duplicates<A>(s: Seq<A>, i: int)
    requires
        0 <= i < s.len(),
        s.no_duplicates(),
    ensures
        s.remove(i).no_duplicates(),
{
    let t = s.remove(i);
    assert forall|a: int, b: int| 0 <= a < t.len() && 0 <= b < t.len() && a != b implies t[a]
        != t[b] by {
        let a1 = if a < i { a } else { a + 1 };
        let b1 = if b < i { b } else { b + 1 };
        assert(t[a] == s[a1]);
        assert(t[b] == s[b1]);
    }
}

proof fn lemma_push_contains<A>(s: Seq<A>, y: A, x: A)
    ensures
        s.push(y).contains(x) <==> s.contains(x) || x == y,
{
    if s.contains(x) {
        let j = choose|j: int| 0 <= j < s.len() && s[j] == x;
        assert(s.push(y)[j] == x);
    }
    if x == y {
        assert(s.push(y)[s.len() as int] == x);
    }
    if s.push(y).contains(x) && x != y {
        let j = choose|j: int| 0 <= j < s.push(y).len() && s.push(y)[j] == x;
        assert(s[j] == x);
    }
}

proof fn lemma_move_exclusive(p: PolicyView, q: PolicyView, i: int)
    requires
        losses_exclusive(p),
        0 <= i < p.computed_losses.len(),
        q.computed_losses == p.computed_losses.remove(i),
        obligation_identities(q.obligations) == obligation_identities(p.obligations)
            || obligation_identities(q.obligations) == obligation_identities(p.obligations).push(
            p.computed_losses[i].identity,
        ),
        loss_identities(q.rejected_losses) == loss_identities(p.rejected_losses) || loss_identities(
            q.rejected_losses,
        ) == loss_identities(p.rejected_losses).push(p.computed_losses[i].identity),
    ensures
        losses_exclusive(q),
{
    let waiting = loss_identities(p.computed_losses);
    assert(loss_identities(q.computed_losses) =~= waiting.remove(i));
    lemma_remove_no_duplicates(waiting, i);
    assert forall|x: LossIdentityView| #[trigger]
        loss_identities(q.computed_losses).contains(x) implies !obligation_identities(
        q.obligations,
    ).contains(x) && !loss_identities(q.rejected_losses).contains(x) by {
        lemma_remove_contains(waiting, i, x);
        lemma_push_contains(obligation_identities(p.obligations), waiting[i], x);
        lemma_push_contains(loss_identities(p.rejected_losses), waiting[i], x);
    }
}

proof fn lemma_decide_exclusive(m: PolicyManagerView, caller: Seq<char>, accept: bool, id: LossIdentityView, now: u64)
    requires
        all_exclusive(m.policies),
    ensures
        all_exclusive(m.decide(caller, accept, id, now).0.policies),
{
    let k = id.policy_id;
    if m.policies.contains_key(k) {
        let p = m.policies[k];
        let ids = loss_identities(p.computed_losses);
        if ids.contains(id) {
            lemma_first_index_found(ids, id);
            let i = first_index(ids, id);
            let a = p.accept(i, now);
            let r = p.reject(i);
            assert(obligation_identities(a.obligations) =~= obligation_identities(p.obligations).push(
                ids[i],
            ));
            assert(loss_identities(r.rejected_losses) =~= loss_identities(p.rejected_losses).push(
                ids[i],
            ));
            lemma_move_exclusive(p, a, i);
            lemma_move_exclusive(p, r, i);
        }
    }
}

proof fn lemma_pay_exclusive(m: PolicyManagerView, caller: Seq<char>, id: LossIdentityView, proof: Seq<char>, now: u64)
    requires
        all_exclusive(m.policies),
    ensures
        all_exclusive(m.pay(caller, id, proof, now).0.policies),
{
    let k = id.policy_id;
    if m.policies.contains_key(k) {
        let p = m.policies[k];
        let ids = obligation_identities(p.obligations);
        if ids.contains(id) {
            lemma_first_index_found(ids, id);
            let i = first_index(ids, id);
            let q = p.settle(i, proof, now);
            assert(obligation_identities(q.obligations) =~= ids.remove(i));
            assert forall|x: LossIdentityView| #[trigger]
                loss_identities(q.computed_losses).contains(x) implies !obligation_identities(
                q.obligations,
            ).contains(x) && !loss_identities(q.rejected_losses).contains(x) by {
                if obligation_identities(q.obligations).contains(x) {
                    lemma_remove_contains(ids, i, x);
                }
            }
        }
    }
}

proof fn lemma_record_exclusive(p: PolicyView, c: ComputedLossView)
    requires
        losses_exclusive(p),
        loss_is_new(p, c.identity),
    ensures
        losses_exclusive(p.record_loss(c)),
{
    let waiting = loss_identities(p.computed_losses);
    let q = p.record_loss(c);
    assert(loss_identities(q.computed_losses) =~= waiting.push(c.identity));
    assert forall|a: int, b: int|
        0 <= a < waiting.push(c.identity).len() && 0 <= b < waiting.push(c.identity).len() && a
            != b implies waiting.push(c.identity)[a] != waiting.push(c.identity)[b] by {
        if a == waiting.len() {
            assert(waiting.contains(waiting[b]));
        } else if b == waiting.len() {
            assert(waiting.contains(waiting[a]));
        }
    }
    assert forall|x: LossIdentityView| #[trigger]
        loss_identities(q.computed_losses).contains(x) implies !obligation_identities(
        q.obligations,
    ).contains(x) && !loss_identities(q.rejected_losses).contains(x) by {
        lemma_push_contains(waiting, c.identity, x);
    }
}

proof fn lemma_apply_exclusive(policies: Map<Seq<char>, PolicyView>, s: Seq<ComputedLossView>)
    requires
        all_exclusive(policies),
        batch_is_new(policies, s),
        apply_losses(policies, s) is Some,
    ensures
        ({
            let q = apply_losses(policies, s)->Some_0;
            &&& all_exclusive(q)
            &&& forall|k: Seq<char>| #[trigger]
                q.contains_key(k) ==> q[k].obligations == policies[k].obligations
                    && q[k].rejected_losses == policies[k].rejected_losses && forall|
                    x: LossIdentityView,
                | #[trigger]
                    loss_identities(q[k].computed_losses).contains(x) ==> loss_identities(
                        policies[k].computed_losses,
                    ).contains(x) || exists|j: int| 0 <= j < s.len() && #[trigger] s[j].identity == x
        }),
    decreases s.len(),
{
    lemma_apply_losses_keeps_keys(policies, s);
    if s.len() > 0 {
        let t = s.drop_last();
        assert(batch_is_new(policies, t)) by {
            assert forall|j: int, l: int| 0 <= l < j < t.len() implies #[trigger] t[l].identity
                != #[trigger] t[j].identity by {
                assert(s[l].identity != s[j].identity);
            }
            assert forall|j: int|
                0 <= j < t.len() && policies.contains_key(
                    #[trigger] t[j].identity.policy_id,
                ) implies loss_is_new(policies[t[j].identity.policy_id], t[j].identity) by {
                assert(t[j] == s[j]);
            }
        }
        lemma_apply_exclusive(policies, t);
        lemma_apply_losses_keeps_keys(policies, t);
        let q0 = apply_losses(policies, t)->Some_0;
        let c = s.last();
        let k = c.identity.policy_id;
        let q = apply_losses(policies, s)->Some_0;
        if q0.contains_key(k) {
            assert(loss_is_new(q0[k], c.identity)) by {
                assert(s[s.len() - 1] == c);
                assert(loss_is_new(policies[k], c.identity));
                if loss_identities(q0[k].computed_losses).contains(c.identity) {
                    if !loss_identities(policies[k].computed_losses).contains(c.identity) {
                        let j = choose|j: int| 0 <= j < t.len() && #[trigger] t[j].identity == c.identity;
                        assert(s[j].identity != s[s.len() - 1].identity);
                    }
                }
            }
            lemma_record_exclusive(q0[k], c);
            assert forall|x: LossIdentityView| #[trigger]
                loss_identities(q[k].computed_losses).contains(x) implies loss_identities(
                policies[k].computed_losses,
            ).contains(x) || exists|j: int| 0 <= j < s.len() && #[trigger] s[j].identity == x by {
                assert(loss_identities(q[k].computed_losses) =~= loss_identities(
                    q0[k].computed_losses,
                ).push(c.identity));
                lemma_push_contains(loss_identities(q0[k].computed_losses), c.identity, x);
                if x == c.identity {
                    assert(s[s.len() - 1].identity == x);
                } else if !loss_identities(policies[k].computed_losses).contains(x) {
                    let j = choose|j: int| 0 <= j < t.len() && #[trigger] t[j].identity == x;
                    assert(s[j].identity == x);
                }
            }
        }
        assert forall|k2: Seq<char>| #[trigger] q.contains_key(k2) && k2 != k implies forall|
            x: LossIdentityView,
        | #[trigger]
            loss_identities(q[k2].computed_losses).contains(x) ==> loss_identities(
                policies[k2].computed_losses,
            ).contains(x) || exists|j: int| 0 <= j < s.len() && #[trigger] s[j].identity == x by {
            assert forall|x: LossIdentityView| #[trigger]
                loss_identities(q[k2].computed_losses).contains(x) implies loss_identities(
                policies[k2].computed_losses,
            ).contains(x) || exists|j: int| 0 <= j < s.len() && #[trigger] s[j].identity == x by {
                if !loss_identities(policies[k2].computed_losses).contains(x) {
                    let j = choose|j: int| 0 <= j < t.len() && #[trigger] t[j].identity == x;
                    assert(s[j].identity == x);
                }
            }
        }
    }
}

/// A loss awaiting a decision is never also owed or rejected, in any state
/// that the ledger reaches: deciding on a loss and reporting a payment keep
/// the losses of every policy apart, and so does taking in computed losses
/// whose identities are new to their policies and to each other. (A loss
/// delivered twice is taken in twice: nothing here detects it.)
pub proof fn law_losses_exclusive(
    m: PolicyManagerView,
    caller: Seq<char>,
    accept: bool,
    id: LossIdentityView,
    proof: Seq<char>,
    now: u64,
    losses: Seq<ComputedLossView>,
)
    requires
        all_exclusive(m.policies),
    ensures
        forall|k: Seq<char>, x: LossIdentityView|
            #![trigger m.policies[k], loss_identities(m.policies[k].computed_losses).contains(x)]
            m.policies.contains_key(k) && loss_identities(m.policies[k].computed_losses).contains(x)
                ==> !obligation_identities(m.policies[k].obligations).contains(x)
                && !loss_identities(m.policies[k].rejected_losses).contains(x),
        all_exclusive(m.decide(caller, accept, id, now).0.policies),
        all_exclusive(m.pay(caller, id, proof, now).0.policies),
        batch_is_new(m.policies, losses) ==> all_exclusive(m.receive_losses(losses).0.policies),
{
    lemma_decide_exclusive(m, caller, accept, id, now);
    lemma_pay_exclusive(m, caller, id, proof, now);
    if batch_is_new(m.policies, losses) && apply_losses(m.policies, losses) is Some {
        lemma_apply_exclusive(m.policies, losses);
    }
    assert forall|k: Seq<char>, x: LossIdentityView|
        m.policies.contains_key(k) && loss_identities(m.policies[k].computed_losses).contains(
            x,
        ) implies !obligation_identities(m.policies[k].obligations).contains(x)
        && !loss_identities(m.policies[k].rejected_losses).contains(x) by {
        assert(losses_exclusive(m.policies[k]));
    }
}

/// Two look-ups of a policy with no write between them give the same answer.
pub proof fn law_get_policy_repeatable(
    m: PolicyManagerView,
    policy_id: Seq<char>,
    first: Option<PolicyView>,
    second: Option<PolicyView>,
)
    requires
        first == m.policy_lookup(policy_id),
        second == m.policy_lookup(policy_id),
    ensures
        first == second,
{
}

} // verus!
