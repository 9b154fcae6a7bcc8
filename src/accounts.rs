//! Lists of accounts that hold a role.
use vstd::prelude::*;

use crate::policy::{first_index, lemma_first_index};

verus! {

/// The accounts of a list, as text.
pub open spec fn names(accounts: Seq<String>) -> Seq<Seq<char>> {
    accounts.map_values(|a: String| a@)
}

/// Where `account` first stands in `accounts`, if at all.
pub fn position_of(accounts: &Vec<String>, account: &String) -> (r: Option<usize>)
    ensures
        r is None <==> !names(accounts@).contains(account@),
        r matches Some(i) ==> i < accounts.len() && names(accounts@)[i as int] == account@
            && i == first_index(names(accounts@), account@),
{
    let ghost s = names(accounts@);
    let mut i: usize = 0;
    while i < accounts.len()
        invariant
            s == names(accounts@),
            i <= accounts.len(),
            forall|j: int| 0 <= j < i ==> s[j] != account@,
        decreases accounts.len() - i,
    {
        if accounts[i] == *account {
            proof {
                lemma_first_index(s, account@, i as int);
            }
            return Some(i);
        }
        i = i + 1;
    }
    None
}

/// Takes the first occurrence of `account` off `accounts`, and returns it.
pub fn remove_first(accounts: &mut Vec<String>, account: &String) -> (r: Option<String>)
    ensures
        r is None <==> !names(old(accounts)@).contains(account@),
        r is None ==> final(accounts)@ == old(accounts)@,
        r matches Some(a) ==> a@ == account@ && names(final(accounts)@) == names(
            old(accounts)@,
        ).remove(first_index(names(old(accounts)@), account@)),
{
    match position_of(accounts, account) {
        Some(i) => {
            let removed = accounts.remove(i);
            assert(names(accounts@) =~= names(old(accounts)@).remove(i as int));
            Some(removed)
        },
        None => None,
    }
}

} // verus!
