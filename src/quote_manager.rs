//! Quotes offered by approved issuers, valid for a number of days set per
//! issuer, from which policies are issued once a client accepts.
use vstd::prelude::*;

use crate::accounts::{names, position_of, remove_first};
use crate::policy::first_index;
use crate::records::{clone_named, named_view};
use crate::table::Table;

verus! {

/// Nanoseconds in a day.
pub const NANOSECONDS_PER_DAY: u64 = 86400000000000;

/// An offer from an issuer that a client may accept.
#[derive(Debug)]
pub struct Quote {
    pub client: String,
    pub id: String,
    /// The contract that decides whether the triggers are met.
    pub triggers_contract: String,
    /// Threshold values, by name, at which the policy pays.
    pub triggers: Vec<(String, i32)>,
    pub max_payout: u32,
    /// Where the insured asset is, as an encoded location.
    pub location: String,
    /// Start and end of the coverage, in nanoseconds.
    pub coverage_period: [u64; 2],
}

pub ghost struct QuoteView {
    pub client: Seq<char>,
    pub id: Seq<char>,
    pub triggers_contract: Seq<char>,
    pub triggers: Seq<(Seq<char>, i32)>,
    pub max_payout: u32,
    pub location: Seq<char>,
    pub coverage_period: [u64; 2],
}

impl View for Quote {
    type V = QuoteView;

    open spec fn view(&self) -> QuoteView {
        QuoteView {
            client: self.client@,
            id: self.id@,
            triggers_contract: self.triggers_contract@,
            triggers: named_view(self.triggers@),
            max_payout: self.max_payout,
            location: self.location@,
            coverage_period: self.coverage_period,
        }
    }
}

impl Clone for Quote {
    fn clone(&self) -> (r: Self)
        ensures
            r@ == self@,
    {
        Quote {
            client: self.client.clone(),
            id: self.id.clone(),
            triggers_contract: self.triggers_contract.clone(),
            triggers: clone_named(&self.triggers),
            max_payout: self.max_payout,
            location: self.location.clone(),
            coverage_period: self.coverage_period,
        }
    }
}

/// A quote with the time until which the client may accept it.
#[derive(Debug)]
pub struct UndecidedQuote {
    pub quote: Quote,
    /// In nanoseconds.
    pub accept_deadline: u64,
}

pub ghost struct UndecidedQuoteView {
    pub quote: QuoteView,
    pub accept_deadline: u64,
}

impl View for UndecidedQuote {
    type V = UndecidedQuoteView;

    open spec fn view(&self) -> UndecidedQuoteView {
        UndecidedQuoteView { quote: self.quote@, accept_deadline: self.accept_deadline }
    }
}

impl DeepView for UndecidedQuote {
    type V = UndecidedQuoteView;

    open spec fn deep_view(&self) -> UndecidedQuoteView {
        self@
    }
}

impl Clone for UndecidedQuote {
    fn clone(&self) -> (r: Self)
        ensures
            r@ == self@,
    {
        UndecidedQuote { quote: self.quote.clone(), accept_deadline: self.accept_deadline }
    }
}

/// Why a quote operation was refused.
#[derive(Clone, Copy, Debug, PartialEq, Eq, Structural)]
pub enum QuoteError {
    /// The caller does not hold the role that the operation needs.
    NotPermitted,
    /// The issuer has no period of validity on record.
    IssuerNotFound,
    /// The quote may still be accepted.
    QuoteStillValid,
    /// The deadline would lie beyond what a timestamp can hold.
    DeadlineOutOfRange,
}

/// The mathematical value of a [`QuoteManager`].
pub ghost struct QuoteManagerView {
    /// Quotes by quote id.
    pub undecided_quotes: Map<Seq<char>, UndecidedQuoteView>,
    pub owner: Seq<char>,
    pub quote_issuers: Seq<Seq<char>>,
    /// Days for which each issuer's quotes stay valid.
    pub standard_days_valid: Map<Seq<char>, u64>,
}

impl QuoteManagerView {
    /// The deadline for a quote that `issuer` issues at time `now`.
    pub open spec fn valid_period(self, issuer: Seq<char>, now: u64) -> Result<u64, QuoteError> {
        if !self.standard_days_valid.contains_key(issuer) {
            Err(QuoteError::IssuerNotFound)
        } else if self.standard_days_valid[issuer] * NANOSECONDS_PER_DAY + now > u64::MAX {
            Err(QuoteError::DeadlineOutOfRange)
        } else {
            Ok((self.standard_days_valid[issuer] * NANOSECONDS_PER_DAY + now) as u64)
        }
    }
}

/// Holds the quotes that clients have not yet accepted, and issues policies
/// from them.
#[derive(Debug)]
pub struct QuoteManager {
    undecided_quotes: Table<UndecidedQuote>,
    owner: String,
    quote_issuers: Vec<String>,
    standard_days_valid: Table<u64>,
}

impl View for QuoteManager {
    type V = QuoteManagerView;

    closed spec fn view(&self) -> QuoteManagerView {
        QuoteManagerView {
            undecided_quotes: self.undecided_quotes@,
            owner: self.owner@,
            quote_issuers: names(self.quote_issuers@),
            standard_days_valid: self.standard_days_valid@,
        }
    }
}

impl QuoteManager {
    pub closed spec fn wf(&self) -> bool {
        self.undecided_quotes.wf() && self.standard_days_valid.wf()
    }

    /// An empty quote manager owned by `owner`.
    pub fn new(owner: String) -> (r: QuoteManager)
        ensures
            r.wf(),
            r@ == (QuoteManagerView {
                undecided_quotes: Map::empty(),
                owner: owner@,
                quote_issuers: Seq::empty(),
                standard_days_valid: Map::empty(),
            }),
    {
        let r = QuoteManager {
            undecided_quotes: Table::new(),
            owner,
            quote_issuers: Vec::new(),
            standard_days_valid: Table::new(),
        };
        assert(r@.quote_issuers =~= Seq::<Seq<char>>::empty());
        r
    }

    /// Records a quote from the calling issuer, valid for the issuer's
    /// standard number of days from `now`, under its id.
    pub fn issue_quote(
        &mut self,
        caller: &String,
        now: u64,
        client: String,
        id: String,
        triggers_contract: String,
        triggers: Vec<(String, i32)>,
        max_payout: u32,
        location: String,
        coverage_period: [u64; 2],
    ) -> (r: Result<(), QuoteError>)
        requires
            old(self).wf(),
        ensures
            final(self).wf(),
            !old(self)@.quote_issuers.contains(caller@) ==> r == Err::<(), QuoteError>(
                QuoteError::NotPermitted,
            ) && final(self)@ == old(self)@,
            old(self)@.quote_issuers.contains(caller@) ==> (old(self)@.valid_period(
                caller@,
                now,
            ) matches Err(e) ==> r == Err::<(), QuoteError>(e) && final(self)@ == old(self)@),
            old(self)@.quote_issuers.contains(caller@) ==> (old(self)@.valid_period(
                caller@,
                now,
            ) matches Ok(deadline) ==> r is Ok && final(self)@ == (QuoteManagerView {
                undecided_quotes: old(self)@.undecided_quotes.insert(
                    id@,
                    UndecidedQuoteView {
                        quote: QuoteView {
                            client: client@,
                            id: id@,
                            triggers_contract: triggers_contract@,
                            triggers: named_view(triggers@),
                            max_payout,
                            location: location@,
                            coverage_period,
                        },
                        accept_deadline: deadline,
                    },
                ),
                ..old(self)@
            })),
    {
        if position_of(&self.quote_issuers, caller).is_none() {
            return Err(QuoteError::NotPermitted);
        }
        let accept_deadline = match self.get_valid_period(caller, now) {
            Ok(d) => d,
            Err(e) => return Err(e),
        };
        let key = id.clone();
        let quote = Quote {
            client,
            id,
            triggers_contract,
            triggers,
            max_payout,
            location,
            coverage_period,
        };
        self.undecided_quotes.insert(key, UndecidedQuote { quote, accept_deadline });
        Ok(())
    }

    /// Drops a quote whose deadline has passed; only the owner may do so. A
    /// quote id with no quote is no error.
    pub fn remove_invalid_quote(&mut self, caller: &String, quote_id: &String, now: u64) -> (r:
        Result<(), QuoteError>)
        requires
            old(self).wf(),
        ensures
            final(self).wf(),
            caller@ != old(self)@.owner ==> r == Err::<(), QuoteError>(QuoteError::NotPermitted)
                && final(self)@ == old(self)@,
            caller@ == old(self)@.owner && !old(self)@.undecided_quotes.contains_key(quote_id@)
                ==> r is Ok && final(self)@ == old(self)@,
            caller@ == old(self)@.owner && old(self)@.undecided_quotes.contains_key(quote_id@)
                && old(self)@.undecided_quotes[quote_id@].accept_deadline > now ==> r == Err::<
                (),
                QuoteError,
            >(QuoteError::QuoteStillValid) && final(self)@ == old(self)@,
            caller@ == old(self)@.owner && old(self)@.undecided_quotes.contains_key(quote_id@)
                && old(self)@.undecided_quotes[quote_id@].accept_deadline <= now ==> r is Ok
                && final(self)@ == (QuoteManagerView {
                undecided_quotes: old(self)@.undecided_quotes.remove(quote_id@),
                ..old(self)@
            }),
    {
        if *caller != self.owner {
            return Err(QuoteError::NotPermitted);
        }
        match self.undecided_quotes.get(quote_id) {
            None => Ok(()),
            Some(quote) => {
                if self.is_valid_quote(quote, now) {
                    return Err(QuoteError::QuoteStillValid);
                }
                self.undecided_quotes.remove(quote_id);
                Ok(())
            },
        }
    }

    /// The quote to turn into a policy, once its client has accepted it:
    /// the calling issuer names it, and it is handed back while its deadline
    /// has not passed. An unknown or expired quote gives nothing.
    pub fn issue_policy(&self, caller: &String, quote_id: &String, now: u64) -> (r: Result<
        Option<Quote>,
        QuoteError,
    >)
        requires
            self.wf(),
        ensures
            !self@.quote_issuers.contains(caller@) ==> r == Err::<Option<Quote>, QuoteError>(
                QuoteError::NotPermitted,
            ),
            self@.quote_issuers.contains(caller@) ==> (r matches Ok(q) && (if self@.undecided_quotes.contains_key(
                quote_id@,
            ) && self@.undecided_quotes[quote_id@].accept_deadline > now {
                q matches Some(quote) && quote@ == self@.undecided_quotes[quote_id@].quote
            } else {
                q is None
            })),
    {
        if position_of(&self.quote_issuers, caller).is_none() {
            return Err(QuoteError::NotPermitted);
        }
        match self.undecided_quotes.get(quote_id) {
            Some(undecided) => {
                if self.is_valid_quote(undecided, now) {
                    Ok(Some(undecided.quote.clone()))
                } else {
                    Ok(None)
                }
            },
            None => Ok(None),
        }
    }

    /// A copy of the quote stored under `quote_id`, if any.
    pub fn get_quote(&self, quote_id: &String) -> (r: Option<UndecidedQuote>)
        requires
            self.wf(),
        ensures
            r is None <==> !self@.undecided_quotes.contains_key(quote_id@),
            r matches Some(q) ==> q@ == self@.undecided_quotes[quote_id@],
    {
        match self.undecided_quotes.get(quote_id) {
            Some(q) => Some(q.clone()),
            None => None,
        }
    }

    /// Sets the number of days for which the calling issuer's quotes stay
    /// valid.
    pub fn change_days_valid(&mut self, caller: &String, days_valid: u64) -> (r: Result<
        (),
        QuoteError,
    >)
        requires
            old(self).wf(),
        ensures
            final(self).wf(),
            !old(self)@.quote_issuers.contains(caller@) ==> r == Err::<(), QuoteError>(
                QuoteError::NotPermitted,
            ) && final(self)@ == old(self)@,
            old(self)@.quote_issuers.contains(caller@) ==> r is Ok && final(self)@ == (
            QuoteManagerView {
                standard_days_valid: old(self)@.standard_days_valid.insert(caller@, days_valid),
                ..old(self)@
            }),
    {
        if position_of(&self.quote_issuers, caller).is_none() {
            return Err(QuoteError::NotPermitted);
        }
        self.standard_days_valid.insert(caller.clone(), days_valid);
        Ok(())
    }

    /// Hands the quote manager to `new_owner`; only the owner may do so.
    pub fn change_owner(&mut self, caller: &String, new_owner: String) -> (r: Result<
        (),
        QuoteError,
    >)
        requires
            old(self).wf(),
        ensures
            final(self).wf(),
            caller@ != old(self)@.owner ==> r == Err::<(), QuoteError>(QuoteError::NotPermitted)
                && final(self)@ == old(self)@,
            caller@ == old(self)@.owner ==> r is Ok && final(self)@ == (QuoteManagerView {
                owner: new_owner@,
                ..old(self)@
            }),
    {
        if *caller != self.owner {
            return Err(QuoteError::NotPermitted);
        }
        self.owner = new_owner;
        Ok(())
    }

    /// Approves `new_issuer` to issue quotes valid for `deadline_length`
    /// days; only the owner may do so.
    pub fn add_issuer(&mut self, caller: &String, new_issuer: String, deadline_length: u64) -> (r:
        Result<(), QuoteError>)
        requires
            old(self).wf(),
        ensures
            final(self).wf(),
            caller@ != old(self)@.owner ==> r == Err::<(), QuoteError>(QuoteError::NotPermitted)
                && final(self)@ == old(self)@,
            caller@ == old(self)@.owner ==> r is Ok && final(self)@ == (QuoteManagerView {
                quote_issuers: old(self)@.quote_issuers.push(new_issuer@),
                standard_days_valid: old(self)@.standard_days_valid.insert(
                    new_issuer@,
                    deadline_length,
                ),
                ..old(self)@
            }),
    {
        if *caller != self.owner {
            return Err(QuoteError::NotPermitted);
        }
        let key = new_issuer.clone();
        self.quote_issuers.push(new_issuer);
        assert(names(self.quote_issuers@) =~= old(self)@.quote_issuers.push(key@));
        self.standard_days_valid.insert(key, deadline_length);
        Ok(())
    }

    /// Withdraws the approval of `old_issuer`; only the owner may do so.
    pub fn remove_issuer(&mut self, caller: &String, old_issuer: &String) -> (r: Result<
        (),
        QuoteError,
    >)
        requires
            old(self).wf(),
        ensures
            final(self).wf(),
            caller@ != old(self)@.owner ==> r == Err::<(), QuoteError>(QuoteError::NotPermitted)
                && final(self)@ == old(self)@,
            caller@ == old(self)@.owner && !old(self)@.quote_issuers.contains(old_issuer@) ==> r
                == Err::<(), QuoteError>(QuoteError::IssuerNotFound) && final(self)@ == old(
                self,
            )@,
            caller@ == old(self)@.owner && old(self)@.quote_issuers.contains(old_issuer@) ==> r
                is Ok && final(self)@ == (QuoteManagerView {
                quote_issuers: old(self)@.quote_issuers.remove(
                    first_index(old(self)@.quote_issuers, old_issuer@),
                ),
                standard_days_valid: old(self)@.standard_days_valid.remove(old_issuer@),
                ..old(self)@
            }),
    {
        if *caller != self.owner {
            return Err(QuoteError::NotPermitted);
        }
        if remove_first(&mut self.quote_issuers, old_issuer).is_none() {
            return Err(QuoteError::IssuerNotFound);
        }
        self.standard_days_valid.remove(old_issuer);
        Ok(())
    }

    /// The deadline for a quote that `issuer` issues at time `now`: the
    /// issuer's standard number of days later.
    fn get_valid_period(&self, issuer: &String, now: u64) -> (r: Result<u64, QuoteError>)
        requires
            self.wf(),
        ensures
            r == self@.valid_period(issuer@, now),
    {
        match self.standard_days_valid.get(issuer) {
            None => Err(QuoteError::IssuerNotFound),
            Some(days) => match days.checked_mul(NANOSECONDS_PER_DAY) {
                None => Err(QuoteError::DeadlineOutOfRange),
                Some(span) => match span.checked_add(now) {
                    None => Err(QuoteError::DeadlineOutOfRange),
                    Some(deadline) => Ok(deadline),
                },
            },
        }
    }

    /// Whether the quote may still be accepted at time `now`.
    fn is_valid_quote(&self, quote: &UndecidedQuote, now: u64) -> (r: bool)
        ensures
            r == (quote.accept_deadline > now),
    {
        quote.accept_deadline > now
    }
}

} // verus!
