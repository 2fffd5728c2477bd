//! Laws of the star-transfer state machine.
//!
//! These proof functions state, over the same views the contracts use,
//! what holds of every state and every grant: self-grants are always
//! refused, the daily limit blocks exactly from the fifth grant on,
//! the limit resets at the day boundary, and a successful grant
//! touches no account but the two parties.

use vstd::prelude::*;

use crate::oracle::{grant_applied, GiveStarError, OracleContract, DAILY_STAR_LIMIT};

verus! {

/// A self-grant is refused with `SelfGrant` in every state, on every
/// day, whatever the transfer would have done — and `give_star`
/// guarantees a refused grant leaves the state untouched.
pub proof fn lemma_self_grant_refused(
    state: OracleContract,
    account: u64,
    day: u64,
    transfer_ok: bool,
)
    ensures
        state.grant_decision(account, account, day, transfer_ok) == Err::<(), GiveStarError>(
            GiveStarError::SelfGrant,
        ),
{
}

/// Once an account has granted `DAILY_STAR_LIMIT` stars on a day,
/// every further grant it attempts that day is refused with
/// `DailyLimitExceeded`, whatever the transfer would have done.
pub proof fn lemma_daily_limit_blocks(
    state: OracleContract,
    caller: u64,
    recipient: u64,
    day: u64,
    transfer_ok: bool,
)
    requires
        caller != recipient,
        state.grants_on(caller, day) >= DAILY_STAR_LIMIT,
    ensures
        state.grant_decision(caller, recipient, day, transfer_ok) == Err::<(), GiveStarError>(
            GiveStarError::DailyLimitExceeded,
        ),
{
}

/// An account under the daily limit, granting to someone else with a
/// transfer that went through, is never refused.
pub proof fn lemma_grant_under_limit_accepted(
    state: OracleContract,
    caller: u64,
    recipient: u64,
    day: u64,
)
    requires
        caller != recipient,
        state.grants_on(caller, day) < DAILY_STAR_LIMIT,
    ensures
        state.grant_decision(caller, recipient, day, true) == Ok::<(), GiveStarError>(()),
{
}

/// A successful grant moves exactly one star and one counter tick: the
/// recipient's balance and the caller's counter for that day each grow
/// by one, every other balance, every other counter and every profile
/// are exactly what they were.
pub proof fn lemma_grant_touches_only_parties(
    pre: OracleContract,
    post: OracleContract,
    caller: u64,
    recipient: u64,
    day: u64,
)
    requires
        grant_applied(pre, post, caller, recipient, day),
        pre.star_balance(recipient) < u64::MAX,
        pre.grants_on(caller, day) < u64::MAX,
    ensures
        post.star_balance(recipient) == pre.star_balance(recipient) + 1,
        post.grants_on(caller, day) == pre.grants_on(caller, day) + 1,
        forall|account: u64|
            account != recipient ==> #[trigger] post.star_balance(account) == pre.star_balance(
                account,
            ),
        forall|account: u64, d: u64|
            !(account == caller && d == day) ==> #[trigger] post.grants_on(account, d)
                == pre.grants_on(account, d),
        post.profiles() == pre.profiles(),
{
}

/// Stars are never revoked: a successful grant leaves every star
/// balance at least where it was (and a refused one, by `give_star`'s
/// contract, leaves the state untouched), so balances only ever grow.
pub proof fn lemma_star_balances_never_decrease(
    pre: OracleContract,
    post: OracleContract,
    caller: u64,
    recipient: u64,
    day: u64,
)
    requires
        grant_applied(pre, post, caller, recipient, day),
        pre.star_balance(recipient) < u64::MAX,
    ensures
        forall|account: u64|
            #[trigger] post.star_balance(account) >= pre.star_balance(account),
{
}

/// Five successful grants by one account on one day exhaust its
/// allowance: starting from an untouched counter, after five applied
/// grants the counter stands at the limit, so a sixth grant that day —
/// to anyone, with any transfer outcome — is refused; and counters for
/// every other day are exactly what they were, so the allowance is
/// whole again at the next day boundary.
pub proof fn lemma_five_grants_exhaust_limit(
    states: Seq<OracleContract>,
    caller: u64,
    recipients: Seq<u64>,
    day: u64,
)
    requires
        states.len() == 6,
        recipients.len() == 5,
        states[0].grants_on(caller, day) == 0,
        forall|i: int|
            0 <= i < 5 ==> grant_applied(
                #[trigger] states[i],
                states[i + 1],
                caller,
                recipients[i],
                day,
            ),
    ensures
        states[5].grants_on(caller, day) == DAILY_STAR_LIMIT,
        forall|recipient: u64, transfer_ok: bool|
            recipient != caller ==> #[trigger] states[5].grant_decision(
                caller,
                recipient,
                day,
                transfer_ok,
            ) == Err::<(), GiveStarError>(GiveStarError::DailyLimitExceeded),
        forall|other_day: u64|
            other_day != day ==> #[trigger] states[5].grants_on(caller, other_day)
                == states[0].grants_on(caller, other_day),
{
    assert(states[1].grants_on(caller, day) == 1);
    assert(states[2].grants_on(caller, day) == 2);
    assert(states[3].grants_on(caller, day) == 3);
    assert(states[4].grants_on(caller, day) == 4);
    assert(states[5].grants_on(caller, day) == 5);
}

/// The daily limit is per day: a grant recorded on one day leaves the
/// caller's counter for every other day unchanged, so a new day starts
/// with the old day's count irrelevant — the counter effectively
/// resets at the day boundary.
pub proof fn lemma_limit_resets_next_day(
    pre: OracleContract,
    post: OracleContract,
    caller: u64,
    recipient: u64,
    day: u64,
    other_day: u64,
)
    requires
        grant_applied(pre, post, caller, recipient, day),
        other_day != day,
    ensures
        post.grants_on(caller, other_day) == pre.grants_on(caller, other_day),
{
}

} // verus!
