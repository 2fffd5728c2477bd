//! The star-transfer state machine and the read path.
//!
//! `give_star` is one atomic state transition: it validates the
//! request, and only where validation passed and the host reports the
//! external value transfer as successful does it commit the star and
//! the daily grant counter — otherwise the state is exactly what it
//! was. The intended protocol for a host is: ask [`OracleContract::check_star_grant`]
//! for the price, move the funds, then hand the outcome to
//! [`OracleContract::give_star`].

use vstd::prelude::*;

use crate::assoc::{lemma_entries_at, lemma_entries_contains};
use crate::leaderboard::{rank_sort, ranks_before};
use crate::natural::Natural;
use crate::pricing::{star_cost, star_cost_spec};
use crate::store::{AccountStore, Profile};

verus! {

/// Why an operation was refused. Every failure leaves the state
/// untouched.
#[derive(Clone, Copy, Debug, PartialEq, Eq, Structural)]
pub enum GiveStarError {
    /// The caller named itself as recipient: stars cannot be
    /// self-granted.
    SelfGrant,
    /// The caller has already granted the daily limit of stars on this
    /// epoch day.
    DailyLimitExceeded,
    /// The external value transfer did not go through.
    InsufficientFunds,
}

/// A query for an account that has no stored profile.
#[derive(Clone, Copy, Debug, PartialEq, Eq, Structural)]
pub struct NotFoundError;

/// The most stars one account may grant per epoch day.
pub const DAILY_STAR_LIMIT: u64 = 5;

/// Seconds per epoch day: the grain of the rate limit.
pub const SECONDS_PER_DAY: u64 = 86400;

/// The epoch day a timestamp (in seconds) falls on.
pub open spec fn day_of(timestamp: u64) -> u64 {
    timestamp / SECONDS_PER_DAY
}

/// The epoch day a timestamp (in seconds) falls on: day keys for the
/// rate limiter.
pub fn day_index(timestamp: u64) -> (day: u64)
    ensures
        day == day_of(timestamp),
{
    timestamp / SECONDS_PER_DAY
}

/// The reputation engine: profiles, star balances and daily grant
/// counters, with the star-transfer and leaderboard logic over them.
pub struct OracleContract {
    store: AccountStore,
}

/// What a successful grant does to the state: the recipient's star
/// balance and the caller's counter for `day` each go up by one, and
/// nothing else changes.
pub open spec fn grant_applied(
    pre: OracleContract,
    post: OracleContract,
    caller: u64,
    recipient: u64,
    day: u64,
) -> bool {
    &&& post.stars() == pre.stars().insert(recipient, (pre.star_balance(recipient) + 1) as u64)
    &&& post.grants() == pre.grants().insert(
        (caller, day),
        (pre.grants_on(caller, day) + 1) as u64,
    )
    &&& post.profiles() == pre.profiles()
}

impl OracleContract {
    /// The profile relation: account to profile record.
    pub closed spec fn profiles(self) -> Map<u64, Profile> {
        self.store.profiles_map()
    }

    /// The star relation: account to stars received.
    pub closed spec fn stars(self) -> Map<u64, u64> {
        self.store.stars_map()
    }

    /// The grant relation: (granting account, epoch day) to stars
    /// granted that day.
    pub closed spec fn grants(self) -> Map<(u64, u64), u64> {
        self.store.grants_map()
    }

    /// Stars received by `account`; zero where none were ever given.
    pub open spec fn star_balance(self, account: u64) -> u64 {
        if self.stars().contains_key(account) {
            self.stars()[account]
        } else {
            0
        }
    }

    /// Stars granted by `account` on epoch day `day`; zero where none
    /// were granted.
    pub open spec fn grants_on(self, account: u64, day: u64) -> u64 {
        if self.grants().contains_key((account, day)) {
            self.grants()[(account, day)]
        } else {
            0
        }
    }

    /// The outcome `give_star` owes on a given state: self-grants are
    /// refused first, then the daily limit, then a failed transfer;
    /// otherwise the grant goes through.
    pub open spec fn grant_decision(
        self,
        caller: u64,
        recipient: u64,
        day: u64,
        transfer_ok: bool,
    ) -> Result<(), GiveStarError> {
        if caller == recipient {
            Err(GiveStarError::SelfGrant)
        } else if self.grants_on(caller, day) >= DAILY_STAR_LIMIT {
            Err(GiveStarError::DailyLimitExceeded)
        } else if !transfer_ok {
            Err(GiveStarError::InsufficientFunds)
        } else {
            Ok(())
        }
    }

    /// A fresh engine: no profiles, no stars, no grants.
    pub fn init() -> (s: OracleContract)
        ensures
            s.profiles() == Map::<u64, Profile>::empty(),
            s.stars() == Map::<u64, u64>::empty(),
            s.grants() == Map::<(u64, u64), u64>::empty(),
    {
        OracleContract { store: AccountStore::new() }
    }

    /// Stores the caller's profile, overwriting any previous one. No
    /// field is validated: the profile is free text.
    pub fn save_profile(
        &mut self,
        caller: u64,
        name: String,
        linkedin: String,
        github: String,
        twitter: String,
    )
        ensures
            final(self).profiles() == old(self).profiles().insert(
                caller,
                (Profile { name, linkedin, github, twitter }),
            ),
            final(self).stars() == old(self).stars(),
            final(self).grants() == old(self).grants(),
    {
        self.store.set_profile(caller, Profile { name, linkedin, github, twitter });
    }

    /// The profile of `account`; fails with `NotFoundError` exactly
    /// where none was ever saved.
    pub fn get_profile(&self, account: u64) -> (r: Result<&Profile, NotFoundError>)
        ensures
            match r {
                Ok(p) => self.profiles().contains_key(account) && *p == self.profiles()[account],
                Err(e) => !self.profiles().contains_key(account) && e == NotFoundError,
            },
    {
        match self.store.get_profile(account) {
            Some(p) => Ok(p),
            None => Err(NotFoundError),
        }
    }

    /// Stars received by `account`; zero where none were ever given.
    pub fn get_stars(&self, account: u64) -> (count: u64)
        ensures
            count == self.star_balance(account),
    {
        self.store.get_stars(account)
    }

    /// The price of the next star for a recipient already holding
    /// `current_stars` stars.
    pub fn calculate_star_cost(&self, current_stars: u64) -> (price: Natural)
        ensures
            price@ == star_cost_spec(current_stars as nat),
    {
        star_cost(current_stars)
    }

    /// Validates a grant before the host moves any funds: the price of
    /// the star where the grant would be accepted, and the exact
    /// refusal otherwise. Reads only; the state is unchanged.
    pub fn check_star_grant(&self, caller: u64, recipient: u64, timestamp: u64) -> (r: Result<
        Natural,
        GiveStarError,
    >)
        ensures
            r is Ok <==> self.grant_decision(caller, recipient, day_of(timestamp), true) is Ok,
            r matches Ok(price) ==> price@ == star_cost_spec(self.star_balance(recipient) as nat),
            r matches Err(e) ==> self.grant_decision(caller, recipient, day_of(timestamp), true)
                == Err::<(), GiveStarError>(e),
    {
        if caller == recipient {
            return Err(GiveStarError::SelfGrant);
        }
        let today = day_index(timestamp);
        if self.store.grants_today(caller, today) >= DAILY_STAR_LIMIT {
            return Err(GiveStarError::DailyLimitExceeded);
        }
        Ok(star_cost(self.store.get_stars(recipient)))
    }

    /// One atomic star transfer. `transfer_ok` is the host's report of
    /// the external value transfer of the checked price from the
    /// caller to the recipient. The outcome is exactly
    /// [`Self::grant_decision`]; on any refusal — a self-grant, an
    /// exhausted daily limit, or a failed transfer — the state is
    /// untouched, and on success exactly the recipient's balance and
    /// the caller's counter for the day go up by one.
    pub fn give_star(
        &mut self,
        caller: u64,
        recipient: u64,
        timestamp: u64,
        transfer_ok: bool,
    ) -> (r: Result<(), GiveStarError>)
        requires
            old(self).grant_decision(caller, recipient, day_of(timestamp), transfer_ok) is Ok
                ==> old(self).star_balance(recipient) < u64::MAX,
        ensures
            r == old(self).grant_decision(caller, recipient, day_of(timestamp), transfer_ok),
            r is Err ==> *final(self) == *old(self),
            r is Ok ==> grant_applied(
                *old(self),
                *final(self),
                caller,
                recipient,
                day_of(timestamp),
            ),
            r is Ok ==> final(self).star_balance(recipient) == old(self).star_balance(recipient)
                + 1,
            r is Ok ==> final(self).grants_on(caller, day_of(timestamp)) == old(self).grants_on(
                caller,
                day_of(timestamp),
            ) + 1,
    {
        if caller == recipient {
            return Err(GiveStarError::SelfGrant);
        }
        let today = day_index(timestamp);
        let granted_today = self.store.grants_today(caller, today);
        if granted_today >= DAILY_STAR_LIMIT {
            return Err(GiveStarError::DailyLimitExceeded);
        }
        if !transfer_ok {
            return Err(GiveStarError::InsufficientFunds);
        }
        let stars_received = self.store.get_stars(recipient);
        self.store.set_stars(recipient, stars_received + 1);
        self.store.set_grants(caller, today, granted_today + 1);
        Ok(())
    }

    /// Up to `limit` accounts holding stars, best first: descending
    /// star balance, equal balances by ascending account identifier.
    /// Exactly the `min(limit, accounts with a star entry)` highest-
    /// ranked accounts are returned, each once.
    pub fn get_top_users(&self, limit: usize) -> (top: Vec<u64>)
        ensures
            top@.len() == vstd::math::min(limit as int, self.stars().dom().len() as int),
            forall|i: int| 0 <= i < top@.len() ==> self.stars().contains_key(#[trigger] top@[i]),
            forall|i: int, j: int| 0 <= i < j < top@.len() ==> top@[i] != top@[j],
            forall|i: int, j: int|
                0 <= i < j < top@.len() ==> (self.star_balance(#[trigger] top@[i])
                    > self.star_balance(#[trigger] top@[j]) || (self.star_balance(top@[i])
                    == self.star_balance(top@[j]) && top@[i] < top@[j])),
            forall|a: u64, i: int|
                #![trigger self.star_balance(a), top@[i]]
                self.stars().contains_key(a) && !top@.contains(a) && 0 <= i < top@.len() ==> (
                self.star_balance(top@[i]) > self.star_balance(a) || (self.star_balance(top@[i])
                    == self.star_balance(a) && top@[i] < a)),
    {
        let entries = self.store.stars_entries();
        let sorted = rank_sort(&entries);
        let k = if limit < sorted.len() {
            limit
        } else {
            sorted.len()
        };
        let mut top: Vec<u64> = Vec::new();
        let mut i: usize = 0;
        while i < k
            invariant
                k <= sorted@.len(),
                i <= k,
                top@.len() == i,
                forall|m: int| 0 <= m < i ==> #[trigger] top@[m] == sorted@[m].0,
            decreases k - i,
        {
            top.push(sorted[i].0);
            i += 1;
        }
        proof {
            let es = entries@;
            let ss = sorted@;
            assert forall|m: int| 0 <= m < top@.len() implies self.stars().contains_key(
                #[trigger] top@[m],
            ) && self.star_balance(top@[m]) == ss[m].1 by {
                let j = choose|j: int| 0 <= j < es.len() && es[j] == ss[m];
                lemma_entries_at(es, j);
            }
            assert forall|m1: int, m2: int| 0 <= m1 < m2 < top@.len() implies (self.star_balance(
                #[trigger] top@[m1],
            ) > self.star_balance(#[trigger] top@[m2]) || (self.star_balance(top@[m1])
                == self.star_balance(top@[m2]) && top@[m1] < top@[m2])) by {
                assert(ranks_before(ss[m1], ss[m2]));
                assert(ss[m1].0 != ss[m2].0);
                assert(ss[m1].1 == self.star_balance(top@[m1]));
                assert(ss[m2].1 == self.star_balance(top@[m2]));
            }
            assert forall|a: u64, m: int|
                #![trigger self.star_balance(a), top@[m]]
                self.stars().contains_key(a) && !top@.contains(a) && 0 <= m
                    < top@.len() implies (self.star_balance(top@[m]) > self.star_balance(a) || (
            self.star_balance(top@[m]) == self.star_balance(a) && top@[m] < a)) by {
                lemma_entries_contains(es, a);
                let j = choose|j: int| 0 <= j < es.len() && es[j].0 == a;
                lemma_entries_at(es, j);
                let l = choose|l: int| 0 <= l < ss.len() && ss[l] == es[j];
                if l < top@.len() {
                    assert(top@[l] == a);
                    assert(top@.contains(a));
                } else {
                    assert(ranks_before(ss[m], ss[l]));
                    assert(ss[m].0 == top@[m] && ss[l].0 == a);
                    assert(ss[m].1 == self.star_balance(top@[m]));
                    assert(ss[l].1 == self.star_balance(a));
                }
            }
        }
        top
    }
}

} // verus!
