//! An oracle for hurricane events: policy ledgers register the triggers of
//! their policies, and authorized nodes report the events that match them.
use vstd::prelude::*;

use crate::accounts::{names, position_of, remove_first};
use crate::policy::{first_index, lemma_first_index};
use crate::table::Table;

verus! {

/// A weather event as an oracle reports it.
#[derive(Debug)]
pub struct Event {
    pub id: String,
    /// The oracle account that reported the event.
    pub oracle: String,
    /// When it occurred, in nanoseconds.
    pub date: u64,
}

/// A request to watch for the events that trigger a policy.
#[derive(Debug)]
pub struct Request {
    pub policy_id: String,
    /// The ledger that holds the policy.
    pub policy_manager: String,
    /// The hurricane category, and the location, that trigger the policy.
    pub triggers: (u8, Vec<i32>),
}

pub ghost struct RequestView {
    pub policy_id: Seq<char>,
    pub policy_manager: Seq<char>,
    pub triggers: (u8, Seq<i32>),
}

impl View for Request {
    type V = RequestView;

    open spec fn view(&self) -> RequestView {
        RequestView {
            policy_id: self.policy_id@,
            policy_manager: self.policy_manager@,
            triggers: (self.triggers.0, self.triggers.1@),
        }
    }
}

impl DeepView for Request {
    type V = RequestView;

    open spec fn deep_view(&self) -> RequestView {
        self@
    }
}

impl Clone for Request {
    fn clone(&self) -> (r: Self)
        ensures
            r@ == self@,
    {
        let location = self.triggers.1.clone();
        assert(location@ =~= self.triggers.1@);
        Request {
            policy_id: self.policy_id.clone(),
            policy_manager: self.policy_manager.clone(),
            triggers: (self.triggers.0, location),
        }
    }
}

/// An event to hand to the ledger that asked for it.
#[derive(Debug)]
pub struct EventNotice {
    pub policy_manager: String,
    pub policy_id: String,
    pub event: Event,
}

/// Why an oracle operation was refused.
#[derive(Clone, Copy, Debug, PartialEq, Eq, Structural)]
pub enum HurricaneOracleError {
    /// The triggers lack a category or a location.
    TriggerDataError,
    RequestNotFound,
    /// The caller does not hold the role that the operation needs.
    Unauthorized,
    /// The account is not in the list it was to be taken off.
    AccountNotFound,
}

impl HurricaneOracleError {
    /// A sentence that describes the error.
    pub fn message(&self) -> (r: String)
        ensures
            *self is TriggerDataError ==> r@ == "trigger data improperly formatted."@,
            *self is RequestNotFound ==> r@ == "the request was not found"@,
            *self is Unauthorized ==> r@ == "the caller is not authorized"@,
            *self is AccountNotFound ==> r@ == "the account was not found"@,
    {
        match self {
            HurricaneOracleError::TriggerDataError => String::from_str(
                "trigger data improperly formatted.",
            ),
            HurricaneOracleError::RequestNotFound => String::from_str("the request was not found"),
            HurricaneOracleError::Unauthorized => String::from_str("the caller is not authorized"),
            HurricaneOracleError::AccountNotFound => String::from_str("the account was not found"),
        }
    }
}

/// The names of a list of named readings.
pub open spec fn reading_names(s: Seq<(String, Vec<i32>)>) -> Seq<Seq<char>> {
    s.map_values(|e: (String, Vec<i32>)| e.0@)
}

/// The values of the first reading called `name`, if there is one.
pub open spec fn first_reading(s: Seq<(String, Vec<i32>)>, name: Seq<char>) -> Option<Seq<i32>> {
    if reading_names(s).contains(name) {
        Some(s[first_index(reading_names(s), name)].1@)
    } else {
        None
    }
}

/// The request that the triggers `t` make for `policy_id`, on behalf of
/// `policy_manager`: both a non-empty category and a non-empty location must
/// be there, and the category is the first value of its reading.
pub open spec fn request_for(
    policy_id: Seq<char>,
    policy_manager: Seq<char>,
    t: Seq<(String, Vec<i32>)>,
) -> Option<RequestView> {
    let category = first_reading(t, "category"@);
    let location = first_reading(t, "location"@);
    match (category, location) {
        (Some(c), Some(l)) => if c.len() > 0 && l.len() > 0 {
            Some(RequestView { policy_id, policy_manager, triggers: (c[0] as u8, l) })
        } else {
            None
        },
        _ => None,
    }
}

/// The first reading called `name`, if there is one.
fn find_reading<'a>(triggers: &'a Vec<(String, Vec<i32>)>, name: &String) -> (r: Option<&'a Vec<i32>>)
    ensures
        r is None <==> first_reading(triggers@, name@) is None,
        r matches Some(v) ==> first_reading(triggers@, name@) == Some(v@),
{
    let ghost s = reading_names(triggers@);
    let mut i: usize = 0;
    while i < triggers.len()
        invariant
            s == reading_names(triggers@),
            i <= triggers.len(),
            forall|j: int| 0 <= j < i ==> s[j] != name@,
        decreases triggers.len() - i,
    {
        if triggers[i].0 == *name {
            proof {
                lemma_first_index(s, name@, i as int);
            }
            return Some(&triggers[i].1);
        }
        i = i + 1;
    }
    None
}

/// `s` holds each request of `requests` once, in some order.
pub open spec fn lists_requests(s: Seq<RequestView>, requests: Map<Seq<char>, RequestView>) -> bool {
    &&& forall|i: int|
        0 <= i < s.len() ==> #[trigger] requests.contains_key(s[i].policy_id) && requests[s[i].policy_id]
            == s[i]
    &&& forall|k: Seq<char>| #[trigger]
        requests.contains_key(k) ==> exists|i: int| 0 <= i < s.len() && #[trigger] s[i].policy_id == k
    &&& forall|i: int, j: int|
        0 <= i < j < s.len() ==> #[trigger] s[i].policy_id != #[trigger] s[j].policy_id
}

/// The mathematical value of a [`HurricaneOracle`].
pub ghost struct HurricaneOracleView {
    /// Nodes that may read requests and report events.
    pub authorized_accounts: Seq<Seq<char>>,
    /// Requests by policy id.
    pub requests: Map<Seq<char>, RequestView>,
    pub admins: Seq<Seq<char>>,
    pub master_admin: Seq<char>,
}

/// The oracle's state.
#[derive(Debug)]
pub struct HurricaneOracle {
    authorized_accounts: Vec<String>,
    requests: Table<Request>,
    admins: Vec<String>,
    master_admin: String,
}

impl View for HurricaneOracle {
    type V = HurricaneOracleView;

    closed spec fn view(&self) -> HurricaneOracleView {
        HurricaneOracleView {
            authorized_accounts: names(self.authorized_accounts@),
            requests: self.requests@,
            admins: names(self.admins@),
            master_admin: self.master_admin@,
        }
    }
}

impl HurricaneOracle {
    /// The requests are well kept, each under its own policy id.
    pub closed spec fn wf(&self) -> bool {
        &&& self.requests.wf()
        &&& forall|k: Seq<char>| #[trigger]
            self.requests@.contains_key(k) ==> self.requests@[k].policy_id == k
    }

    /// An oracle with no requests, no nodes and no admins, administered by
    /// `master_admin`.
    pub fn new(master_admin: String) -> (r: HurricaneOracle)
        ensures
            r.wf(),
            r@ == (HurricaneOracleView {
                authorized_accounts: Seq::empty(),
                requests: Map::empty(),
                admins: Seq::empty(),
                master_admin: master_admin@,
            }),
    {
        let r = HurricaneOracle {
            authorized_accounts: Vec::new(),
            requests: Table::new(),
            admins: Vec::new(),
            master_admin,
        };
        assert(r@.authorized_accounts =~= Seq::<Seq<char>>::empty());
        assert(r@.admins =~= Seq::<Seq<char>>::empty());
        r
    }

    /// Records, under `policy_id`, a request from the ledger `caller` to watch
    /// for the hurricane category and location in `triggers`, in place of any
    /// earlier request for that policy.
    pub fn check_for_events(
        &mut self,
        caller: &String,
        policy_id: String,
        triggers: Vec<(String, Vec<i32>)>,
    ) -> (r: Result<(), HurricaneOracleError>)
        requires
            old(self).wf(),
        ensures
            final(self).wf(),
            request_for(policy_id@, caller@, triggers@) is None ==> r == Err::<
                (),
                HurricaneOracleError,
            >(HurricaneOracleError::TriggerDataError) && final(self)@ == old(self)@,
            request_for(policy_id@, caller@, triggers@) matches Some(q) ==> r is Ok && final(self)@ == (HurricaneOracleView {
                requests: old(self)@.requests.insert(policy_id@, q),
                ..old(self)@
            }),
    {
        let category_name = String::from_str("category");
        let location_name = String::from_str("location");
        proof {
            reveal_strlit("category");
            reveal_strlit("location");
        }
        let category = match find_reading(&triggers, &category_name) {
            Some(v) => v,
            None => return Err(HurricaneOracleError::TriggerDataError),
        };
        let location = match find_reading(&triggers, &location_name) {
            Some(v) => v,
            None => return Err(HurricaneOracleError::TriggerDataError),
        };
        if category.len() == 0 || location.len() == 0 {
            return Err(HurricaneOracleError::TriggerDataError);
        }
        let level = category[0] as u8;
        let area = location.clone();
        assert(area@ =~= location@);
        let request = Request {
            policy_id: policy_id.clone(),
            policy_manager: caller.clone(),
            triggers: (level, area),
        };
        self.requests.insert(policy_id, request);
        Ok(())
    }

    /// A copy of the request for `policy_id`, if any; only an authorized node
    /// may read requests.
    pub fn get_request(&self, caller: &String, policy_id: &String) -> (r: Result<
        Option<Request>,
        HurricaneOracleError,
    >)
        requires
            self.wf(),
        ensures
            !self@.authorized_accounts.contains(caller@) ==> r == Err::<
                Option<Request>,
                HurricaneOracleError,
            >(HurricaneOracleError::Unauthorized),
            self@.authorized_accounts.contains(caller@) ==> (r matches Ok(q) && (q is None
                <==> !self@.requests.contains_key(policy_id@)) && (q matches Some(v) ==> v@
                == self@.requests[policy_id@])),
    {
        if position_of(&self.authorized_accounts, caller).is_none() {
            return Err(HurricaneOracleError::Unauthorized);
        }
        match self.requests.get(policy_id) {
            Some(q) => Ok(Some(q.clone())),
            None => Ok(None),
        }
    }

    /// Copies of all requests, one for each policy; only an authorized node
    /// may read requests.
    #[verifier::rlimit(40)]
    pub fn get_all_requests(&self, caller: &String) -> (r: Result<
        Vec<Request>,
        HurricaneOracleError,
    >)
        requires
            self.wf(),
        ensures
            !self@.authorized_accounts.contains(caller@) ==> r == Err::<
                Vec<Request>,
                HurricaneOracleError,
            >(HurricaneOracleError::Unauthorized),
            self@.authorized_accounts.contains(caller@) ==> (r matches Ok(v) && lists_requests(
                v.deep_view(),
                self@.requests,
            )),
    {
        if position_of(&self.authorized_accounts, caller).is_none() {
            return Err(HurricaneOracleError::Unauthorized);
        }
        let t = &self.requests;
        proof {
            t.lemma_entries();
        }
        let mut all: Vec<Request> = Vec::new();
        let mut i: usize = 0;
        while i < t.len()
            invariant
                self.wf(),
                i <= t.size(),
                all@.len() == i,
                forall|j: int|
                    0 <= j < t.size() ==> #[trigger] t@.contains_key(t.key_spec(j))
                        && t@[t.key_spec(j)] == t.value_spec(j).deep_view(),
                forall|k: Seq<char>|
                    #[trigger] t@.contains_key(k) ==> exists|j: int|
                        0 <= j < t.size() && #[trigger] t.key_spec(j) == k,
                forall|j: int, l: int|
                    0 <= j < l < t.size() ==> #[trigger] t.key_spec(j) != #[trigger] t.key_spec(l),
                forall|j: int| 0 <= j < i ==> #[trigger] all@[j]@ == t.value_spec(j)@,
            decreases t.size() - i,
        {
            let q = t.value_at(i).clone();
            all.push(q);
            i = i + 1;
        }
        assert forall|j: int| 0 <= j < all.len() implies #[trigger] self@.requests.contains_key(
            all@[j]@.policy_id,
        ) && self@.requests[all@[j]@.policy_id] == all@[j]@ by {
            assert(t@.contains_key(t.key_spec(j)));
        }
        assert forall|k: Seq<char>| #[trigger] self@.requests.contains_key(k) implies exists|
            j: int,
        | 0 <= j < all.len() && #[trigger] all@[j]@.policy_id == k by {
            let j = choose|j: int| 0 <= j < t.size() && #[trigger] t.key_spec(j) == k;
            assert(t@.contains_key(t.key_spec(j)));
            assert(all@[j]@.policy_id == k);
        }
        assert forall|j: int, l: int| 0 <= j < l < all.len() implies #[trigger] all@[j]@.policy_id
            != #[trigger] all@[l]@.policy_id by {
            assert(t@.contains_key(t.key_spec(j)));
            assert(t@.contains_key(t.key_spec(l)));
            assert(t.key_spec(j) != t.key_spec(l));
            assert(t@[t.key_spec(j)].policy_id == t.key_spec(j));
            assert(t@[t.key_spec(l)].policy_id == t.key_spec(l));
        }
        assert(lists_requests(all.deep_view(), self@.requests)) by {
            assert forall|k: Seq<char>| #[trigger] self@.requests.contains_key(k) implies exists|
                j: int,
            | 0 <= j < all.deep_view().len() && #[trigger] all.deep_view()[j].policy_id == k by {
                let j = choose|j: int| 0 <= j < all.len() && #[trigger] all@[j]@.policy_id == k;
                assert(all.deep_view()[j].policy_id == k);
            }
        }
        Ok(all)
    }

    /// Reports the event `event_data`, an event id and a date, for the
    /// policy `policy_id`: the notice goes to the ledger that asked, naming
    /// the calling node as the oracle. Only an authorized node may report.
    pub fn fulfill_request(&self, caller: &String, policy_id: &String, event_data: (String, u64)) -> (r:
        Result<EventNotice, HurricaneOracleError>)
        requires
            self.wf(),
        ensures
            !self@.authorized_accounts.contains(caller@) ==> r == Err::<
                EventNotice,
                HurricaneOracleError,
            >(HurricaneOracleError::Unauthorized),
            self@.authorized_accounts.contains(caller@) && !self@.requests.contains_key(
                policy_id@,
            ) ==> r == Err::<EventNotice, HurricaneOracleError>(
                HurricaneOracleError::RequestNotFound,
            ),
            self@.authorized_accounts.contains(caller@) && self@.requests.contains_key(policy_id@)
                ==> (r matches Ok(n) && n.policy_manager@ == self@.requests[policy_id@].policy_manager
                && n.policy_id@ == policy_id@ && n.event.id@ == event_data.0@ && n.event.oracle@
                == caller@ && n.event.date == event_data.1),
    {
        if position_of(&self.authorized_accounts, caller).is_none() {
            return Err(HurricaneOracleError::Unauthorized);
        }
        match self.requests.get(policy_id) {
            None => Err(HurricaneOracleError::RequestNotFound),
            Some(request) => Ok(
                EventNotice {
                    policy_manager: request.policy_manager.clone(),
                    policy_id: policy_id.clone(),
                    event: Event { id: event_data.0, oracle: caller.clone(), date: event_data.1 },
                },
            ),
        }
    }

    /// Lets `auth_account` read requests and report events; only an admin may
    /// do so.
    pub fn add_authorized_account(&mut self, caller: &String, auth_account: String) -> (r: Result<
        (),
        HurricaneOracleError,
    >)
        requires
            old(self).wf(),
        ensures
            final(self).wf(),
            !old(self)@.admins.contains(caller@) ==> r == Err::<(), HurricaneOracleError>(
                HurricaneOracleError::Unauthorized,
            ) && final(self)@ == old(self)@,
            old(self)@.admins.contains(caller@) ==> r is Ok && final(self)@ == (
            HurricaneOracleView {
                authorized_accounts: old(self)@.authorized_accounts.push(auth_account@),
                ..old(self)@
            }),
    {
        if position_of(&self.admins, caller).is_none() {
            return Err(HurricaneOracleError::Unauthorized);
        }
        let ghost a = auth_account@;
        let ghost before = self.authorized_accounts@;
        self.authorized_accounts.push(auth_account);
        assert(self.authorized_accounts@ == before.push(self.authorized_accounts@.last()));
        assert(names(self.authorized_accounts@) =~= names(before).push(a));
        assert(self.requests == old(self).requests);
        Ok(())
    }

    /// Takes the first occurrence of `auth_account` off the authorized nodes;
    /// only an admin may do so.
    pub fn remove_authorized_account(&mut self, caller: &String, auth_account: &String) -> (r:
        Result<(), HurricaneOracleError>)
        requires
            old(self).wf(),
        ensures
            final(self).wf(),
            !old(self)@.admins.contains(caller@) ==> r == Err::<(), HurricaneOracleError>(
                HurricaneOracleError::Unauthorized,
            ) && final(self)@ == old(self)@,
            old(self)@.admins.contains(caller@) && !old(self)@.authorized_accounts.contains(
                auth_account@,
            ) ==> r == Err::<(), HurricaneOracleError>(HurricaneOracleError::AccountNotFound)
                && final(self)@ == old(self)@,
            old(self)@.admins.contains(caller@) && old(self)@.authorized_accounts.contains(
                auth_account@,
            ) ==> r is Ok && final(self)@ == (HurricaneOracleView {
                authorized_accounts: old(self)@.authorized_accounts.remove(
                    first_index(old(self)@.authorized_accounts, auth_account@),
                ),
                ..old(self)@
            }),
    {
        if position_of(&self.admins, caller).is_none() {
            return Err(HurricaneOracleError::Unauthorized);
        }
        match remove_first(&mut self.authorized_accounts, auth_account) {
            Some(_) => Ok(()),
            None => Err(HurricaneOracleError::AccountNotFound),
        }
    }

    /// Makes `admin` an admin; only the master admin may do so.
    pub fn add_admin(&mut self, caller: &String, admin: String) -> (r: Result<
        (),
        HurricaneOracleError,
    >)
        requires
            old(self).wf(),
        ensures
            final(self).wf(),
            caller@ != old(self)@.master_admin ==> r == Err::<(), HurricaneOracleError>(
                HurricaneOracleError::Unauthorized,
            ) && final(self)@ == old(self)@,
            caller@ == old(self)@.master_admin ==> r is Ok && final(self)@ == (
            HurricaneOracleView { admins: old(self)@.admins.push(admin@), ..old(self)@ }),
    {
        if *caller != self.master_admin {
            return Err(HurricaneOracleError::Unauthorized);
        }
        let ghost a = admin@;
        let ghost before = self.admins@;
        self.admins.push(admin);
        assert(names(self.admins@) =~= names(before).push(a));
        Ok(())
    }

    /// Takes the first occurrence of `old_admin` off the admins; only the
    /// master admin may do so.
    pub fn remove_admin(&mut self, caller: &String, old_admin: &String) -> (r: Result<
        (),
        HurricaneOracleError,
    >)
        requires
            old(self).wf(),
        ensures
            final(self).wf(),
            caller@ != old(self)@.master_admin ==> r == Err::<(), HurricaneOracleError>(
                HurricaneOracleError::Unauthorized,
            ) && final(self)@ == old(self)@,
            caller@ == old(self)@.master_admin && !old(self)@.admins.contains(old_admin@) ==> r
                == Err::<(), HurricaneOracleError>(HurricaneOracleError::AccountNotFound)
                && final(self)@ == old(self)@,
            caller@ == old(self)@.master_admin && old(self)@.admins.contains(old_admin@) ==> r
                is Ok && final(self)@ == (HurricaneOracleView {
                admins: old(self)@.admins.remove(first_index(old(self)@.admins, old_admin@)),
                ..old(self)@
            }),
    {
        if *caller != self.master_admin {
            return Err(HurricaneOracleError::Unauthorized);
        }
        match remove_first(&mut self.admins, old_admin) {
            Some(_) => Ok(()),
            None => Err(HurricaneOracleError::AccountNotFound),
        }
    }

    /// Hands the master-admin role to `new_admin`; only the master admin may
    /// do so.
    pub fn change_master_admin(&mut self, caller: &String, new_admin: String) -> (r: Result<
        (),
        HurricaneOracleError,
    >)
        requires
            old(self).wf(),
        ensures
            final(self).wf(),
            caller@ != old(self)@.master_admin ==> r == Err::<(), HurricaneOracleError>(
                HurricaneOracleError::Unauthorized,
            ) && final(self)@ == old(self)@,
            caller@ == old(self)@.master_admin ==> r is Ok && final(self)@ == (
            HurricaneOracleView { master_admin: new_admin@, ..old(self)@ }),
    {
        if *caller != self.master_admin {
            return Err(HurricaneOracleError::Unauthorized);
        }
        self.master_admin = new_admin;
        Ok(())
    }
}

} // verus!
