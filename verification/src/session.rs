//! Session validity: how long an account's session still lasts at a given
//! moment, and how a group's session-duration policy reads.

use vstd::prelude::*;
use vstd::string::*;
use crate::account::{Account, Group};
use crate::text::{decimal, push_decimal};

verus! {

/// Earliest second, counted from the Unix epoch, that a [`Timestamp`] can hold.
pub const MIN_SECONDS: i64 = -8_334_601_228_800;

/// Latest second, counted from the Unix epoch, that a [`Timestamp`] can hold.
pub const MAX_SECONDS: i64 = 8_210_266_876_799;

/// Nanoseconds in one second.
pub const NANOS_PER_SECOND: u32 = 1_000_000_000;

/// A moment in time: whole seconds since the Unix epoch and the nanoseconds
/// elapsed within that second.
#[derive(Clone, Copy, Debug, PartialEq, Eq, Structural)]
pub struct Timestamp {
    secs: i64,
    nanos: u32,
}

/// Whether `secs` and `nanos` denote a moment that a [`Timestamp`] can hold.
pub open spec fn representable(secs: int, nanos: int) -> bool {
    &&& MIN_SECONDS <= secs <= MAX_SECONDS
    &&& 0 <= nanos < NANOS_PER_SECOND
}

/// Nanoseconds from `now` until `until`; negative when `until` lies in the past.
pub open spec fn nanos_between(until: Timestamp, now: Timestamp) -> int {
    (until.seconds() - now.seconds()) * 1_000_000_000 + (until.subsec_nanos() - now.subsec_nanos())
}

/// The whole minutes in a span of `nanos` nanoseconds, rounded towards zero.
pub open spec fn whole_minutes(nanos: int) -> int {
    if nanos >= 0 {
        nanos / 60_000_000_000
    } else {
        -((-nanos) / 60_000_000_000)
    }
}

impl Timestamp {
    #[verifier::type_invariant]
    spec fn in_range(self) -> bool {
        representable(self.secs as int, self.nanos as int)
    }

    /// Seconds since the Unix epoch.
    pub closed spec fn seconds(self) -> int {
        self.secs as int
    }

    /// Nanoseconds elapsed within the second.
    pub closed spec fn subsec_nanos(self) -> int {
        self.nanos as int
    }

    /// The moment `secs` seconds and `nanos` nanoseconds after the Unix epoch,
    /// or `None` where that moment is not representable.
    pub fn new(secs: i64, nanos: u32) -> (t: Option<Timestamp>)
        ensures
            t.is_some() <==> representable(secs as int, nanos as int),
            t.is_some() ==> t.unwrap().seconds() == secs && t.unwrap().subsec_nanos() == nanos,
    {
        if MIN_SECONDS <= secs && secs <= MAX_SECONDS && nanos < NANOS_PER_SECOND {
            Some(Timestamp { secs, nanos })
        } else {
            None
        }
    }

    /// Seconds since the Unix epoch.
    pub fn secs(&self) -> (s: i64)
        ensures
            s == self.seconds(),
            MIN_SECONDS <= s <= MAX_SECONDS,
    {
        proof {
            use_type_invariant(self);
        }
        self.secs
    }

    /// Nanoseconds elapsed within the second.
    pub fn nanos(&self) -> (n: u32)
        ensures
            n == self.subsec_nanos(),
            n < NANOS_PER_SECOND,
    {
        proof {
            use_type_invariant(self);
        }
        self.nanos
    }

}

/// Calls chrono's `DateTime::from_timestamp` on both moments, then
/// `DateTime::signed_duration_since` and `TimeDelta::num_minutes` on the
/// results. Between two moments without leap-second nanoseconds chrono's
/// subtraction is exact, `num_seconds` drops the fraction towards zero and
/// `num_minutes` divides that by sixty, again towards zero: together the
/// whole minutes of the exact span, rounded towards zero. `from_timestamp`
/// yields `None` outside the representable range, which the precondition
/// leaves out.
#[verifier::external_body]
fn minutes_until(until: Timestamp, now: Timestamp) -> (minutes: i64)
    requires
        representable(until.seconds(), until.subsec_nanos()),
        representable(now.seconds(), now.subsec_nanos()),
    ensures
        minutes == whole_minutes(nanos_between(until, now)),
{
    let until = chrono::DateTime::from_timestamp(until.secs, until.nanos).unwrap();
    let now = chrono::DateTime::from_timestamp(now.secs, now.nanos).unwrap();
    until.signed_duration_since(now).num_minutes()
}

/// What is known of an account's session at some moment.
#[derive(Clone, Copy, Debug, PartialEq, Eq, Structural)]
pub enum SessionState {
    /// The session still lasts for this many whole minutes.
    Active(i64),
    /// There is no session, or it has run out.
    Expired,
}

/// The state of a session that lasts until `valid_until`, seen at `now`.
pub open spec fn session_state(valid_until: Option<Timestamp>, now: Timestamp) -> SessionState {
    match valid_until {
        None => SessionState::Expired,
        Some(until) => {
            let minutes = whole_minutes(nanos_between(until, now));
            if minutes < 0 {
                SessionState::Expired
            } else {
                SessionState::Active(minutes as i64)
            }
        },
    }
}

impl SessionState {
    /// How the state reads in a listing.
    pub open spec fn description(self) -> Seq<char> {
        match self {
            SessionState::Active(minutes) => decimal(minutes as int) + " minutes left"@,
            SessionState::Expired => "no valid session"@,
        }
    }

    /// How the state reads in a listing: the minutes left, or that there is
    /// no valid session.
    pub fn describe(&self) -> (text: String)
        ensures
            text@ == self.description(),
    {
        match self {
            SessionState::Active(minutes) => {
                let mut text = String::new();
                push_decimal(&mut text, *minutes);
                text.append(" minutes left");
                text
            },
            SessionState::Expired => String::from_str("no valid session"),
        }
    }
}

/// Classifies the session of `account` as seen at `now`: expired where the
/// account holds no session or the session ended a whole minute ago or
/// earlier, else active with the whole minutes that are left, which may be
/// none.
pub fn classify(account: &Account, now: Timestamp) -> (state: SessionState)
    ensures
        state == session_state(account@.valid_until, now),
{
    match account.valid_until {
        None => SessionState::Expired,
        Some(until) => {
            proof {
                use_type_invariant(until);
                use_type_invariant(now);
            }
            let minutes: i64 = minutes_until(until, now);
            if minutes < 0 {
                SessionState::Expired
            } else {
                SessionState::Active(minutes)
            }
        },
    }
}

/// How a session-duration policy reads: `implicit` where no duration is
/// set, else the seconds.
pub open spec fn policy_text(session_duration: Option<i64>) -> Seq<char> {
    match session_duration {
        None => "implicit"@,
        Some(seconds) => decimal(seconds as int) + " seconds"@,
    }
}

/// How the session-duration policy of `group` reads: `implicit` where the
/// group sets no duration, else the number of seconds followed by
/// ` seconds`.
pub fn policy(group: &Group) -> (text: String)
    ensures
        text@ == policy_text(group@.session_duration),
{
    match group.session_duration {
        None => String::from_str("implicit"),
        Some(seconds) => {
            let mut text = String::new();
            push_decimal(&mut text, seconds);
            text.append(" seconds");
            text
        },
    }
}

/// A session that ends at `now` itself is still active, with no whole
/// minute left.
pub proof fn lemma_session_ending_now(now: Timestamp)
    ensures
        session_state(Some(now), now) == SessionState::Active(0),
{
    assert(nanos_between(now, now) == 0);
}

/// A session that ends a whole number of minutes after `now`, in the same
/// fraction of a second, is active with exactly those minutes left: with
/// one minute where it ends sixty seconds after `now`.
pub proof fn lemma_whole_minutes_ahead(until: Timestamp, now: Timestamp, minutes: int)
    requires
        0 <= minutes <= i64::MAX,
        until.seconds() == now.seconds() + 60 * minutes,
        until.subsec_nanos() == now.subsec_nanos(),
    ensures
        session_state(Some(until), now) == SessionState::Active(minutes as i64),
{
    assert(nanos_between(until, now) == 60_000_000_000 * minutes);
}

/// A session is expired exactly where there is none or where it ended a
/// whole minute before `now` or earlier; an active one has the minutes left
/// that fit wholly into the time up to its end.
pub proof fn lemma_session_state_bounds(valid_until: Option<Timestamp>, now: Timestamp)
    requires
        valid_until.is_some() ==> representable(
            valid_until.unwrap().seconds(),
            valid_until.unwrap().subsec_nanos(),
        ),
        representable(now.seconds(), now.subsec_nanos()),
    ensures
        session_state(valid_until, now) == SessionState::Expired <==> valid_until.is_none()
            || nanos_between(valid_until.unwrap(), now) <= -60_000_000_000,
        forall|minutes: i64|
            session_state(valid_until, now) == SessionState::Active(minutes) ==> {
                let span = nanos_between(valid_until.unwrap(), now);
                &&& valid_until.is_some()
                &&& 0 <= minutes
                &&& -60_000_000_000 < span
                &&& 60_000_000_000 * minutes <= span || (minutes == 0 && span < 0)
                &&& span < 60_000_000_000 * (minutes + 1)
            },
{
}

} // verus!
