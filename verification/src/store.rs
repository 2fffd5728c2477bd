//! The account store.
//!
//! Key-value persistence for the per-account records: profiles, star
//! balances, and per-day grant counters. Each relation is an
//! association vector with distinct keys; its contract speaks of the
//! [`Map`] the vector denotes. An absent star balance or grant counter
//! reads as zero.

use vstd::prelude::*;

use crate::assoc::{
    distinct_keys, entries_map, lemma_entries_at, lemma_entries_contains, lemma_entries_dom_len,
    lemma_entries_push, lemma_entries_update,
};

verus! {

/// An account's public profile: a display name and three social
/// handles, free text with no format constraints.
pub struct Profile {
    pub name: String,
    pub linkedin: String,
    pub github: String,
    pub twitter: String,
}

/// The three persisted relations. Accounts are opaque identifiers,
/// here 64-bit; a grant counter is keyed by granting account and epoch
/// day.
pub struct AccountStore {
    profiles: Vec<(u64, Profile)>,
    stars: Vec<(u64, u64)>,
    grants: Vec<((u64, u64), u64)>,
}

impl AccountStore {
    /// Every relation keeps its keys distinct, so each denotes a map
    /// with one entry per key.
    #[verifier::type_invariant]
    closed spec fn wf(self) -> bool {
        distinct_keys(self.profiles@) && distinct_keys(self.stars@) && distinct_keys(self.grants@)
    }

    /// The profile relation: account to profile record.
    pub closed spec fn profiles_map(self) -> Map<u64, Profile> {
        entries_map(self.profiles@)
    }

    /// The star relation: account to stars received.
    pub closed spec fn stars_map(self) -> Map<u64, u64> {
        entries_map(self.stars@)
    }

    /// The grant relation: (granting account, epoch day) to stars
    /// granted that day.
    pub closed spec fn grants_map(self) -> Map<(u64, u64), u64> {
        entries_map(self.grants@)
    }

    /// Stars received by `account`; zero where no entry exists.
    pub open spec fn star_balance(self, account: u64) -> u64 {
        if self.stars_map().contains_key(account) {
            self.stars_map()[account]
        } else {
            0
        }
    }

    /// Stars granted by `account` on epoch day `day`; zero where no
    /// entry exists.
    pub open spec fn grants_on(self, account: u64, day: u64) -> u64 {
        if self.grants_map().contains_key((account, day)) {
            self.grants_map()[(account, day)]
        } else {
            0
        }
    }

    /// An empty store: every relation empty, every balance zero.
    pub fn new() -> (s: AccountStore)
        ensures
            s.profiles_map() == Map::<u64, Profile>::empty(),
            s.stars_map() == Map::<u64, u64>::empty(),
            s.grants_map() == Map::<(u64, u64), u64>::empty(),
    {
        AccountStore { profiles: Vec::new(), stars: Vec::new(), grants: Vec::new() }
    }

    /// The stored profile of `account`, or `None` where none was ever
    /// saved.
    pub fn get_profile(&self, account: u64) -> (r: Option<&Profile>)
        ensures
            match r {
                Some(p) => self.profiles_map().contains_key(account) && *p
                    == self.profiles_map()[account],
                None => !self.profiles_map().contains_key(account),
            },
    {
        proof {
            use_type_invariant(self);
        }
        let n = self.profiles.len();
        let mut i: usize = 0;
        while i < n
            invariant
                n == self.profiles@.len(),
                i <= n,
                distinct_keys(self.profiles@),
                forall|j: int| 0 <= j < i ==> self.profiles@[j].0 != account,
            decreases n - i,
        {
            if self.profiles[i].0 == account {
                proof {
                    lemma_entries_at(self.profiles@, i as int);
                }
                return Some(&self.profiles[i].1);
            }
            i += 1;
        }
        proof {
            lemma_entries_contains(self.profiles@, account);
        }
        None
    }

    /// Stores `profile` under `account`, overwriting any previous one.
    pub fn set_profile(&mut self, account: u64, profile: Profile)
        ensures
            final(self).profiles_map() == old(self).profiles_map().insert(account, profile),
            final(self).stars_map() == old(self).stars_map(),
            final(self).grants_map() == old(self).grants_map(),
    {
        proof {
            use_type_invariant(&*self);
        }
        let mut profiles: Vec<(u64, Profile)> = Vec::new();
        std::mem::swap(&mut profiles, &mut self.profiles);
        let n = profiles.len();
        let mut i: usize = 0;
        while i < n && profiles[i].0 != account
            invariant
                n == profiles@.len(),
                i <= n,
                forall|j: int| 0 <= j < i ==> profiles@[j].0 != account,
            decreases n - i,
        {
            i += 1;
        }
        if i < n {
            proof {
                lemma_entries_update(profiles@, i as int, profile);
            }
            profiles[i] = (account, profile);
        } else {
            proof {
                lemma_entries_push(profiles@, account, profile);
            }
            profiles.push((account, profile));
        }
        std::mem::swap(&mut profiles, &mut self.profiles);
    }

    /// Stars received by `account`, reading an absent entry as zero.
    pub fn get_stars(&self, account: u64) -> (r: u64)
        ensures
            r == self.star_balance(account),
    {
        proof {
            use_type_invariant(self);
        }
        let n = self.stars.len();
        let mut i: usize = 0;
        while i < n
            invariant
                n == self.stars@.len(),
                i <= n,
                distinct_keys(self.stars@),
                forall|j: int| 0 <= j < i ==> self.stars@[j].0 != account,
            decreases n - i,
        {
            if self.stars[i].0 == account {
                proof {
                    lemma_entries_at(self.stars@, i as int);
                }
                return self.stars[i].1;
            }
            i += 1;
        }
        proof {
            lemma_entries_contains(self.stars@, account);
        }
        0
    }

    /// Sets the star balance of `account` to `count`.
    pub fn set_stars(&mut self, account: u64, count: u64)
        ensures
            final(self).stars_map() == old(self).stars_map().insert(account, count),
            final(self).profiles_map() == old(self).profiles_map(),
            final(self).grants_map() == old(self).grants_map(),
    {
        proof {
            use_type_invariant(&*self);
        }
        let mut stars: Vec<(u64, u64)> = Vec::new();
        std::mem::swap(&mut stars, &mut self.stars);
        let n = stars.len();
        let mut i: usize = 0;
        while i < n && stars[i].0 != account
            invariant
                n == stars@.len(),
                i <= n,
                forall|j: int| 0 <= j < i ==> stars@[j].0 != account,
            decreases n - i,
        {
            i += 1;
        }
        if i < n {
            proof {
                lemma_entries_update(stars@, i as int, count);
            }
            stars[i] = (account, count);
        } else {
            proof {
                lemma_entries_push(stars@, account, count);
            }
            stars.push((account, count));
        }
        std::mem::swap(&mut stars, &mut self.stars);
    }

    /// A copy of the star relation as entries, for the leaderboard
    /// scan: the same map, keys distinct, one entry per account.
    pub fn stars_entries(&self) -> (entries: Vec<(u64, u64)>)
        ensures
            distinct_keys(entries@),
            entries_map(entries@) == self.stars_map(),
            entries@.len() == self.stars_map().dom().len(),
    {
        proof {
            use_type_invariant(self);
            lemma_entries_dom_len(self.stars@);
        }
        let n = self.stars.len();
        let mut entries: Vec<(u64, u64)> = Vec::new();
        let mut i: usize = 0;
        while i < n
            invariant
                n == self.stars@.len(),
                i <= n,
                entries@ =~= self.stars@.take(i as int),
            decreases n - i,
        {
            entries.push(self.stars[i]);
            i += 1;
        }
        proof {
            assert(entries@ =~= self.stars@);
        }
        entries
    }

    /// Stars granted by `account` on `day`, reading an absent entry as
    /// zero.
    pub fn grants_today(&self, account: u64, day: u64) -> (r: u64)
        ensures
            r == self.grants_on(account, day),
    {
        proof {
            use_type_invariant(self);
        }
        let n = self.grants.len();
        let mut i: usize = 0;
        while i < n
            invariant
                n == self.grants@.len(),
                i <= n,
                distinct_keys(self.grants@),
                forall|j: int| 0 <= j < i ==> self.grants@[j].0 != (account, day),
            decreases n - i,
        {
            if self.grants[i].0.0 == account && self.grants[i].0.1 == day {
                proof {
                    lemma_entries_at(self.grants@, i as int);
                }
                return self.grants[i].1;
            }
            i += 1;
        }
        proof {
            lemma_entries_contains(self.grants@, (account, day));
        }
        0
    }

    /// Sets the grant counter of (`account`, `day`) to `count`.
    pub fn set_grants(&mut self, account: u64, day: u64, count: u64)
        ensures
            final(self).grants_map() == old(self).grants_map().insert((account, day), count),
            final(self).profiles_map() == old(self).profiles_map(),
            final(self).stars_map() == old(self).stars_map(),
    {
        proof {
            use_type_invariant(&*self);
        }
        let mut grants: Vec<((u64, u64), u64)> = Vec::new();
        std::mem::swap(&mut grants, &mut self.grants);
        let n = grants.len();
        let mut i: usize = 0;
        while i < n && !(grants[i].0.0 == account && grants[i].0.1 == day)
            invariant
                n == grants@.len(),
                i <= n,
                forall|j: int| 0 <= j < i ==> grants@[j].0 != (account, day),
            decreases n - i,
        {
            i += 1;
        }
        if i < n {
            proof {
                lemma_entries_update(grants@, i as int, count);
            }
            grants[i] = ((account, day), count);
        } else {
            proof {
                lemma_entries_push(grants@, (account, day), count);
            }
            grants.push(((account, day), count));
        }
        std::mem::swap(&mut grants, &mut self.grants);
    }
}

} // verus!
