use chrono::Datelike;
use vstd::prelude::*;
use vstd::string::*;

use crate::config::{DAILY_BONUS, START_CHIPS};

verus! {

/// A moment as seconds and nanoseconds since the Unix epoch, UTC.
#[derive(Debug, Clone, Copy, PartialEq, Eq, Structural)]
pub struct Timestamp {
    pub secs: i64,
    pub nanos: u32,
}

/// The number of the UTC calendar day holding the second `secs`, counting
/// 1 January of year 1 as day 1.
pub open spec fn epoch_day(secs: i64) -> int {
    secs as int / 86_400 + 719_163
}

/// Calls `chrono::Utc::now()` and splits the result into seconds and
/// nanoseconds. chrono reads the system clock as a duration since 1970 and
/// unwraps `DateTime::from_timestamp` of it, so when it returns the seconds
/// are not negative, lie within chrono's last day (year 262142) and the
/// nanoseconds are below a second; which moment it is depends on the clock
/// and is not stated. chrono panics when the clock reads before 1970 or past
/// that day.
#[verifier::external_body]
fn utc_now() -> (t: Timestamp)
    ensures
        t.secs >= 0,
        datable(t),
{
    let t = chrono::Utc::now();
    Timestamp { secs: t.timestamp(), nanos: t.timestamp_subsec_nanos() }
}

/// Calls `chrono::DateTime::<Utc>::from_timestamp` and, on a valid moment,
/// `date_naive().num_days_from_ce()`. chrono's source computes the day as
/// `secs.div_euclid(86_400) + 719_163` and accepts the moment exactly when
/// that day lies in its date range (1 January −262143 to 31 December
/// 262142) and the nanoseconds are below a second, or below two seconds in
/// the last second of a minute (a leap second): exactly the datable moments.
#[verifier::external_body]
fn utc_day(t: Timestamp) -> (d: Option<i32>)
    ensures
        d matches Some(v) ==> v == epoch_day(t.secs),
        d is Some <==> datable(t),
{
    match chrono::DateTime::from_timestamp(t.secs, t.nanos) {
        Some(dt) => Some(dt.date_naive().num_days_from_ce()),
        None => None,
    }
}

/// The offline profile: a name, a chip balance and the last daily claim.
#[derive(Debug, Clone)]
pub struct OfflinePlayer {
    pub name: String,
    pub chips: i64,
    pub last_daily_claim: Option<Timestamp>,
}

/// A moment chrono places on a calendar day: from the first second of
/// chrono's first day, 1 January −262143, up to the last second of its last
/// day, 31 December 262142, with less than a second of nanoseconds, or less
/// than two in the last second of a minute (a leap second).
pub open spec fn datable(t: Timestamp) -> bool {
    &&& -8_334_601_228_800 <= t.secs <= 8_210_266_876_799
    &&& (t.nanos < 1_000_000_000 || (t.nanos < 2_000_000_000 && t.secs % 60 == 59))
}

/// A new daily bonus may be claimed at `now`: never claimed, or last claimed
/// on an earlier UTC day.
pub open spec fn claim_open(last: Option<Timestamp>, now: Timestamp) -> bool {
    match last {
        None => true,
        Some(t) => epoch_day(now.secs) > epoch_day(t.secs),
    }
}

/// Whether a claim at `now` goes through: never claimed; or last claimed on
/// an earlier day; or either moment lies where no calendar day can be
/// found, in which case the claim is let through.
pub open spec fn claim_allowed(last: Option<Timestamp>, now: Timestamp) -> bool {
    match last {
        None => true,
        Some(t) => if datable(now) && datable(t) {
            epoch_day(now.secs) > epoch_day(t.secs)
        } else {
            true
        },
    }
}

/// Both moments can be placed on a day.
pub open spec fn claim_datable(last: Option<Timestamp>, now: Timestamp) -> bool {
    datable(now) && match last {
        None => true,
        Some(t) => datable(t),
    }
}

/// The profile as a value.
pub struct PlayerView {
    pub name: Seq<char>,
    pub chips: i64,
    pub last_daily_claim: Option<Timestamp>,
}

impl View for OfflinePlayer {
    type V = PlayerView;

    open spec fn view(&self) -> PlayerView {
        PlayerView { name: self.name@, chips: self.chips, last_daily_claim: self.last_daily_claim }
    }
}

impl Default for OfflinePlayer {
    fn default() -> (p: Self)
        ensures
            p.name@ == "Player"@,
            p.chips == START_CHIPS,
            p.last_daily_claim is None,
    {
        Self { name: String::from_str("Player"), chips: START_CHIPS, last_daily_claim: None }
    }
}

impl OfflinePlayer {
    /// Whether the daily bonus is open at the moment `now`.
    pub fn can_claim_daily_at(&self, now: Timestamp) -> (open: bool)
        ensures
            open == claim_allowed(self.last_daily_claim, now),
            claim_datable(self.last_daily_claim, now) ==> open == claim_open(self.last_daily_claim, now),
            self.last_daily_claim is None ==> open,
    {
        match self.last_daily_claim {
            None => true,
            Some(t) => {
                let a = utc_day(now);
                let b = utc_day(t);
                match (a, b) {
                    (Some(x), Some(y)) => x > y,
                    _ => true,
                }
            },
        }
    }

    /// Whether the daily bonus is open now: the answer for the moment the
    /// clock reads, some datable moment from 1970 on. Which moment that is
    /// depends on the clock.
    pub fn can_claim_daily(&self) -> (open: bool)
        ensures
            self.last_daily_claim is None ==> open,
            exists|now: Timestamp|
                #[trigger] datable(now) && now.secs >= 0 && open == claim_allowed(self.last_daily_claim, now),
    {
        let now = utc_now();
        let open = self.can_claim_daily_at(now);
        assert(datable(now) && now.secs >= 0);
        open
    }

    /// Claims the daily bonus at the moment `now` if it is open: the chips
    /// grow by the bonus and the claim is recorded.
    pub fn claim_daily_bonus_at(&mut self, now: Timestamp) -> (claimed: bool)
        requires
            old(self).chips + DAILY_BONUS <= i64::MAX,
        ensures
            claimed == claim_allowed(old(self).last_daily_claim, now),
            claim_datable(old(self).last_daily_claim, now) ==> claimed == claim_open(
                old(self).last_daily_claim,
                now,
            ),
            old(self).last_daily_claim is None ==> claimed,
            claimed ==> final(self).chips == old(self).chips + DAILY_BONUS
                && final(self).last_daily_claim == Some(now),
            !claimed ==> final(self).chips == old(self).chips
                && final(self).last_daily_claim == old(self).last_daily_claim,
            final(self).name@ == old(self).name@,
    {
        if self.can_claim_daily_at(now) {
            self.chips += DAILY_BONUS;
            self.last_daily_claim = Some(now);
            true
        } else {
            false
        }
    }

    /// Claims the daily bonus now, if it is open: the answer, and the claim
    /// recorded, are those for the moment the clock reads, some datable
    /// moment from 1970 on.
    pub fn claim_daily_bonus(&mut self) -> (claimed: bool)
        requires
            old(self).chips + DAILY_BONUS <= i64::MAX,
        ensures
            claimed ==> final(self).chips == old(self).chips + DAILY_BONUS
                && final(self).last_daily_claim is Some,
            !claimed ==> final(self).chips == old(self).chips
                && final(self).last_daily_claim == old(self).last_daily_claim,
            old(self).last_daily_claim is None ==> claimed,
            final(self).name@ == old(self).name@,
            exists|now: Timestamp|
                #[trigger] datable(now) && now.secs >= 0 && (claimed ==> final(self).last_daily_claim == Some(
                    now,
                )) && claimed == claim_allowed(old(self).last_daily_claim, now),
    {
        let now = utc_now();
        self.claim_daily_bonus_at(now)
    }
}

/// An online account, for later.
#[derive(Debug, Clone)]
pub struct OnlinePlayer {
    pub account_id: String,
    pub display_name: String,
}

/// The daily bonus is paid once a day: after a claim at `now`, a claim at
/// `later` is open only on a later UTC day.
pub proof fn law_daily_once_per_day(now: Timestamp, later: Timestamp)
    ensures
        claim_open(Some(now), later) == (epoch_day(later.secs) > epoch_day(now.secs)),
        epoch_day(later.secs) == epoch_day(now.secs) ==> !claim_open(Some(now), later),
        claim_open(None, later),
{
}

} // verus!
