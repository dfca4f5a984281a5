//! Limits on how often a client may ask.
pub mod bans;
pub mod counters;

use crate::outside::random_byte;
use crate::path::{parent, path_parent, System};
use crate::text::{opt_str, opt_text, same_text, starts_with};
use bans::{
    add_ban, bans as list_holds, clean_list, cleaned, empty_list, is_listable,
    law_banned_client_is_blocked, list_bans, new_list, with_ban,
};
use counters::{count_of, is_recent, Counters};
use vstd::prelude::*;

verus! {

/// Where the list of banned clients is kept.
pub const BAN_FILE: &'static str = "./.tiec/ip_ban.txt";

/// How many requests a client may make in a second.
pub const RATE_LIMIT: u32 = 120;

/// For how many days a client is banned that asks too often.
pub const BAN_DAYS: u64 = 7;

/// A second, in nanoseconds.
pub const SECOND: u64 = 1_000_000_000;

/// After how many nanoseconds a client may ask once more that may ask `rate` times in a second.
pub fn quota_interval(rate: u32) -> (r: u64)
    requires
        0 < rate <= SECOND,
    ensures
        r == SECOND / rate as u64,
        0 < r,
        r * rate <= SECOND < (r + 1) * rate,
{
    let n = rate as u64;
    let r = SECOND / n;
    assert(0 < r && r * n <= 1_000_000_000 && 1_000_000_000 < (r + 1) * n) by (nonlinear_arith)
        requires
            0 < n <= 1_000_000_000,
            r == 1_000_000_000u64 / n,
    ;
    r
}

/// How a request is refused.
#[derive(Debug)]
pub struct Refusal {
    pub status: u16,
    pub error: &'static str,
    pub message: &'static str,
    /// How many requests are allowed in the window, where the refusal tells.
    pub limit: Option<u32>,
    pub window: Option<&'static str>,
}

// ---------------------------------------------------------------------------
// Requests in a second
// ---------------------------------------------------------------------------
/// One more on a count, which stays at its greatest value.
pub open spec fn one_more(count: u32) -> u32 {
    if count == u32::MAX {
        count
    } else {
        (count + 1) as u32
    }
}

/// The count of a client after a request, and whether the request is allowed. A count starts anew
/// a second after it started.
pub open spec fn second_step(entry: Option<(u32, u64)>, now: u64, limit: u32) -> ((u32, u64), bool) {
    let (count, started) = match entry {
        Some(e) => e,
        None => (0, now),
    };
    if now - started >= SECOND {
        ((1, now), true)
    } else {
        ((one_more(count), started), one_more(count) <= limit)
    }
}

/// The file with the list of banned clients, as it was read.
#[derive(Clone, Copy, Debug)]
pub enum BanFile<'a> {
    /// There is none.
    Missing,
    /// It is there, and cannot be read.
    Unreadable,
    Holds(&'a str),
}

impl<'a> BanFile<'a> {
    /// The list, where it could be read.
    pub open spec fn list(self) -> Option<Seq<char>> {
        match self {
            BanFile::Holds(l) => Some(l@),
            _ => None,
        }
    }

    /// What is written for the ban of a client from a moment on. A list that cannot be read is left
    /// as it is.
    pub open spec fn banning(self, ip: Seq<char>, now: nat) -> Option<Seq<char>> {
        match self {
            BanFile::Missing => Some(with_ban(empty_list(), ip, now)),
            BanFile::Unreadable => None,
            BanFile::Holds(l) => Some(with_ban(l@, ip, now)),
        }
    }
}

#[derive(Debug)]
pub struct IpRateLimiter {
    request_counts: Counters,
    ban_file_path: String,
    rate_limit: u32,
    ban_secs: u64,
}

pub struct LimiterView {
    /// The count of each client in its second, and when it started.
    pub counts: Map<Seq<char>, (u32, u64)>,
    pub ban_file_path: Seq<char>,
    /// How many requests a client may make in a second.
    pub rate_limit: u32,
    /// How long a client is banned.
    pub ban_secs: u64,
}

impl View for IpRateLimiter {
    type V = LimiterView;

    closed spec fn view(&self) -> LimiterView {
        LimiterView {
            counts: self.request_counts@,
            ban_file_path: self.ban_file_path@,
            rate_limit: self.rate_limit,
            ban_secs: self.ban_secs,
        }
    }
}

impl LimiterView {
    /// The counts after a request of a client, whether it is refused, and the list to write.
    pub open spec fn called(self, ip: Seq<char>, file: BanFile, now_secs: u64, now: u64) -> (
        LimiterView,
        bool,
        Option<Seq<char>>,
    ) {
        let step = second_step(count_of(self.counts, ip), now, self.rate_limit);
        if file.list() matches Some(l) && list_holds(l, ip, now_secs as int, self.ban_secs as int) {
            (self, true, None)
        } else {
            (
                LimiterView { counts: self.counts.insert(ip, step.0), ..self },
                !step.1,
                if step.1 {
                    None
                } else {
                    file.banning(ip, now_secs as nat)
                },
            )
        }
    }

    /// The counts after a client that is not banned asked at given moments.
    pub open spec fn asked(self, ip: Seq<char>, now_secs: u64, times: Seq<u64>) -> LimiterView
        decreases times.len(),
    {
        if times.len() == 0 {
            self
        } else {
            self.asked(ip, now_secs, times.drop_last()).called(
                ip,
                BanFile::Missing,
                now_secs,
                times.last(),
            ).0
        }
    }
}

impl IpRateLimiter {
    pub closed spec fn wf(&self) -> bool {
        self.request_counts.wf()
    }

    /// A limiter, and the directory that has to exist for its list. The list's path has slashes
    /// only, so it is the same directory on all systems.
    pub fn new(rate_limit_per_second: u32, ban_duration_days: u64) -> (r: (
        IpRateLimiter,
        Option<String>,
    ))
        requires
            ban_duration_days * 86400 <= u64::MAX,
        ensures
            r.0.wf(),
            r.0@ == (LimiterView {
                counts: Map::empty(),
                ban_file_path: BAN_FILE@,
                rate_limit: rate_limit_per_second,
                ban_secs: (ban_duration_days * 86400) as u64,
            }),
            opt_text(r.1) == path_parent(System::Unix, BAN_FILE@),
    {
        let limiter = IpRateLimiter {
            request_counts: Counters::new(),
            ban_file_path: BAN_FILE.to_owned(),
            rate_limit: rate_limit_per_second,
            ban_secs: ban_duration_days * 86400,
        };
        (limiter, parent(System::Unix, BAN_FILE))
    }

    /// Where the list of banned clients is kept.
    pub fn ban_file(&self) -> (r: &str)
        ensures
            r@ == self@.ban_file_path,
    {
        self.ban_file_path.as_str()
    }

    /// Whether a client is banned at a moment, in seconds since the start of 1970, by the list,
    /// if there is one.
    pub fn is_blocked(&self, ip: &str, list: Option<&str>, now: u64) -> (r: bool)
        ensures
            r == match list {
                Some(l) => list_holds(l@, ip@, now as int, self@.ban_secs as int),
                None => false,
            },
    {
        match list {
            Some(l) => list_bans(l, ip, now, self.ban_secs),
            None => false,
        }
    }

    /// The list with the ban of a client from a moment on.
    pub fn add_banned_ip(&self, ip: &str, list: Option<&str>, now: u64) -> (r: String)
        ensures
            r@ == with_ban(
                match list {
                    Some(l) => l@,
                    None => empty_list(),
                },
                ip@,
                now as nat,
            ),
    {
        match list {
            Some(l) => add_ban(l, ip, now),
            None => {
                let l = new_list();
                add_ban(l.as_str(), ip, now)
            },
        }
    }

    /// The list without the bans that are over at a moment.
    pub fn cleanup_expired_bans(&self, list: Option<&str>, now: u64) -> (r: Option<String>)
        ensures
            match (list, r) {
                (Some(l), Some(c)) => c@ == cleaned(l@, now as nat, self@.ban_secs as int),
                (None, None) => true,
                _ => false,
            },
    {
        match list {
            Some(l) => Some(clean_list(l, now, self.ban_secs)),
            None => None,
        }
    }

    /// Counts a request of a client at a moment, given in seconds since the start of 1970 and in
    /// nanoseconds. Tells whether it is allowed, and the list to write: a client whose request is
    /// not allowed is put on it.
    pub fn check_and_update_rate(
        &mut self,
        ip: &str,
        file: BanFile,
        now_secs: u64,
        now: u64,
    ) -> (r: (bool, Option<String>))
        requires
            old(self).wf(),
        ensures
            final(self).wf(),
            ({
                let step = second_step(count_of(old(self)@.counts, ip@), now, old(self)@.rate_limit);
                &&& r.0 == step.1
                &&& opt_text(r.1) == if step.1 {
                    None
                } else {
                    file.banning(ip@, now_secs as nat)
                }
                &&& final(self)@ == (LimiterView {
                    counts: old(self)@.counts.insert(ip@, step.0),
                    ..old(self)@
                })
            }),
    {
        let (count, started) = match self.request_counts.get(ip) {
            Some(e) => e,
            None => (0, now),
        };
        if now >= started && now - started >= SECOND {
            self.request_counts.set(ip, 1, now);
            return (true, None);
        }
        let next: u32 = if count == u32::MAX {
            count
        } else {
            count + 1
        };
        self.request_counts.set(ip, next, started);
        if next <= self.rate_limit {
            return (true, None);
        }
        let list = match file {
            BanFile::Missing => Some(self.add_banned_ip(ip, None, now_secs)),
            BanFile::Unreadable => None,
            BanFile::Holds(l) => Some(self.add_banned_ip(ip, Some(l), now_secs)),
        };
        (false, list)
    }

    /// Forgets the counts that started ten seconds before a moment, in nanoseconds, or earlier.
    pub fn cleanup(&mut self, now: u64)
        requires
            old(self).wf(),
        ensures
            final(self).wf(),
            final(self)@ == (LimiterView {
                counts: old(self)@.counts.restrict(
                    Set::new(
                        |ip: Seq<char>|
                            old(self)@.counts.contains_key(ip) && is_recent(
                                old(self)@.counts[ip].1,
                                now,
                                10_000_000_000,
                            ),
                    ),
                ),
                ..old(self)@
            }),
    {
        self.request_counts.keep_recent(now, 10_000_000_000);
    }

    /// Decides on a request of a client, at a moment given in seconds since the start of 1970 and
    /// in nanoseconds: a banned client is refused, and so is one that asks too often, which is
    /// then put on the list. Tells the refusal, and the list to write.
    pub fn call(&mut self, ip: &str, file: BanFile, now_secs: u64, now: u64) -> (r: (
        Option<Refusal>,
        Option<String>,
    ))
        requires
            old(self).wf(),
        ensures
            final(self).wf(),
            ({
                let banned = file.list() matches Some(l) && list_holds(
                    l,
                    ip@,
                    now_secs as int,
                    old(self)@.ban_secs as int,
                );
                let step = second_step(count_of(old(self)@.counts, ip@), now, old(self)@.rate_limit);
                if banned {
                    &&& final(self)@ == old(self)@
                    &&& r.0 is Some && r.0->0.is_blocked_client()
                    &&& r.1 is None
                } else {
                    &&& final(self)@ == (LimiterView {
                        counts: old(self)@.counts.insert(ip@, step.0),
                        ..old(self)@
                    })
                    &&& r.0 is None <==> step.1
                    &&& r.0 is Some ==> r.0->0.is_too_often()
                    &&& opt_text(r.1) == if step.1 {
                        None
                    } else {
                        file.banning(ip@, now_secs as nat)
                    }
                }
            }),
            (final(self)@, r.0 is Some, opt_text(r.1)) == old(self)@.called(
                ip@,
                file,
                now_secs,
                now,
            ),
    {
        let list = match file {
            BanFile::Holds(l) => Some(l),
            _ => None,
        };
        if self.is_blocked(ip, list, now_secs) {
            let refusal = Refusal {
                status: 403,
                error: "IP blocked due to rate limit violation",
                message: "Your IP has been temporarily blocked. Please try again later.",
                limit: None,
                window: None,
            };
            return (Some(refusal), None);
        }
        let (allowed, banned) = self.check_and_update_rate(ip, file, now_secs, now);
        if allowed {
            return (None, banned);
        }
        let refusal = Refusal {
            status: 429,
            error: "Rate limit exceeded",
            message: "Too many requests. Your IP has been blocked for 7 days.",
            limit: None,
            window: None,
        };
        (Some(refusal), banned)
    }
}

impl Refusal {
    pub open spec fn is_blocked_client(&self) -> bool {
        &&& self.status == 403
        &&& self.error@ == "IP blocked due to rate limit violation"@
        &&& self.message@ == "Your IP has been temporarily blocked. Please try again later."@
        &&& self.limit is None
        &&& self.window is None
    }

    pub open spec fn is_too_often(&self) -> bool {
        &&& self.status == 429
        &&& self.error@ == "Rate limit exceeded"@
        &&& self.message@ == "Too many requests. Your IP has been blocked for 7 days."@
        &&& self.limit is None
        &&& self.window is None
    }

    pub open spec fn is_too_often_in_the_hour(&self) -> bool {
        &&& self.status == 429
        &&& self.error@ == "Hourly rate limit exceeded"@
        &&& self.message@ == "Too many requests from this IP. Max 20 requests per hour."@
        &&& self.limit == Some(20u32)
        &&& opt_str(self.window) == Some("1h"@)
    }
}

/// Whether a random byte asks for a cleanup.
pub fn asks_for_cleanup(byte: u8) -> (r: bool)
    ensures
        r == (byte < 1),
{
    byte < 1
}

/// Draws a byte at random, and tells whether it asks for a cleanup after a request.
pub fn draw_cleanup() -> (r: (u8, bool))
    ensures
        r.1 == (r.0 < 1),
{
    let byte = random_byte();
    (byte, asks_for_cleanup(byte))
}

// ---------------------------------------------------------------------------
// Requests in an hour
// ---------------------------------------------------------------------------
/// The count of a client after a request in an hour, and whether the request is allowed. The
/// first request of a client in a later hour is always allowed.
pub open spec fn hour_step(entry: Option<(u32, u64)>, hour: u64, limit: u32) -> ((u32, u64), bool) {
    let (count, counted) = match entry {
        Some(e) => e,
        None => (0, hour),
    };
    if counted != hour {
        ((1, hour), true)
    } else {
        ((one_more(count), hour), one_more(count) <= limit)
    }
}

#[derive(Debug)]
pub struct HourlyIpLimiter {
    limit_per_hour: u32,
    request_counts: Counters,
}

pub struct HourlyView {
    pub limit_per_hour: u32,
    /// The count of each client, and the hour in which it was made.
    pub counts: Map<Seq<char>, (u32, u64)>,
}

impl View for HourlyIpLimiter {
    type V = HourlyView;

    closed spec fn view(&self) -> HourlyView {
        HourlyView { limit_per_hour: self.limit_per_hour, counts: self.request_counts@ }
    }
}

/// The requests that count: uploads, new builds, and questions about builds.
pub open spec fn is_limited(path: Seq<char>, method: Seq<char>) -> bool {
    ||| "/api/v1/upload"@.is_prefix_of(path) && method == "POST"@
    ||| "/api/v1/build"@.is_prefix_of(path) && method == "POST"@
    ||| "/api/v1/build/"@.is_prefix_of(path) && method == "GET"@
}

/// Whether a request counts.
pub fn limited(path: &str, method: &str) -> (r: bool)
    ensures
        r == is_limited(path@, method@),
{
    (starts_with(path, "/api/v1/upload") && same_text(method, "POST")) || (starts_with(
        path,
        "/api/v1/build",
    ) && same_text(method, "POST")) || (starts_with(path, "/api/v1/build/") && same_text(
        method,
        "GET",
    ))
}

impl HourlyView {
    /// The counts after a request of a client, and whether it is refused.
    pub open spec fn called(
        self,
        ip: Seq<char>,
        path: Seq<char>,
        method: Seq<char>,
        now: u64,
    ) -> (HourlyView, bool) {
        let step = hour_step(count_of(self.counts, ip), now / 3600, self.limit_per_hour);
        if is_limited(path, method) {
            (HourlyView { counts: self.counts.insert(ip, step.0), ..self }, !step.1)
        } else {
            (self, false)
        }
    }

    /// The counts after a client asked for what lies below the builds, at given moments.
    pub open spec fn asked_below_builds(
        self,
        ip: Seq<char>,
        rests: Seq<Seq<char>>,
        times: Seq<u64>,
    ) -> HourlyView
        decreases rests.len(),
    {
        if rests.len() == 0 {
            self
        } else {
            self.asked_below_builds(ip, rests.drop_last(), times).called(
                ip,
                "/api/v1/build/"@ + rests.last(),
                "GET"@,
                times[rests.len() - 1],
            ).0
        }
    }
}

impl HourlyIpLimiter {
    pub closed spec fn wf(&self) -> bool {
        self.request_counts.wf()
    }

    pub fn new(limit_per_hour: u32) -> (r: HourlyIpLimiter)
        ensures
            r.wf(),
            r@ == (HourlyView { limit_per_hour, counts: Map::empty() }),
    {
        HourlyIpLimiter { limit_per_hour, request_counts: Counters::new() }
    }

    /// Counts a request of a client at a moment, in seconds since the start of 1970, and tells
    /// whether it is allowed.
    pub fn check_and_update(&mut self, ip: &str, now: u64) -> (r: bool)
        requires
            old(self).wf(),
        ensures
            final(self).wf(),
            ({
                let step = hour_step(
                    count_of(old(self)@.counts, ip@),
                    now / 3600,
                    old(self)@.limit_per_hour,
                );
                &&& r == step.1
                &&& final(self)@ == (HourlyView {
                    counts: old(self)@.counts.insert(ip@, step.0),
                    ..old(self)@
                })
            }),
    {
        let hour = now / 3600;
        let (count, counted) = match self.request_counts.get(ip) {
            Some(e) => e,
            None => (0, hour),
        };
        if counted != hour {
            self.request_counts.set(ip, 1, hour);
            return true;
        }
        let next: u32 = if count == u32::MAX {
            count
        } else {
            count + 1
        };
        self.request_counts.set(ip, next, hour);
        next <= self.limit_per_hour
    }

    /// Decides on a request of a client at a moment, in seconds since the start of 1970.
    pub fn call(&mut self, ip: &str, path: &str, method: &str, now: u64) -> (r: Option<Refusal>)
        requires
            old(self).wf(),
        ensures
            final(self).wf(),
            ({
                let step = hour_step(
                    count_of(old(self)@.counts, ip@),
                    now / 3600,
                    old(self)@.limit_per_hour,
                );
                if is_limited(path@, method@) {
                    &&& final(self)@ == (HourlyView {
                        counts: old(self)@.counts.insert(ip@, step.0),
                        ..old(self)@
                    })
                    &&& r is None <==> step.1
                    &&& r is Some ==> r->0.is_too_often_in_the_hour()
                } else {
                    r is None && final(self)@ == old(self)@
                }
            }),
            (final(self)@, r is Some) == old(self)@.called(ip@, path@, method@, now),
    {
        if limited(path, method) && !self.check_and_update(ip, now) {
            Some(
                Refusal {
                    status: 429,
                    error: "Hourly rate limit exceeded",
                    message: "Too many requests from this IP. Max 20 requests per hour.",
                    limit: Some(20),
                    window: Some("1h"),
                },
            )
        } else {
            None
        }
    }
}

// ---------------------------------------------------------------------------
// Laws
// ---------------------------------------------------------------------------
/// The count of a client after requests at given moments.
pub open spec fn second_count(entry: Option<(u32, u64)>, times: Seq<u64>, limit: u32) -> Option<
    (u32, u64),
>
    decreases times.len(),
{
    if times.len() == 0 {
        entry
    } else {
        Some(second_step(second_count(entry, times.drop_last(), limit), times.last(), limit).0)
    }
}

/// Within a second of the request that starts a count, as many requests of a client are allowed
/// as the limit says, and no more, whatever the client did before. A count starts with a client's
/// first request, and with the first one a second or more after the last count started.
pub proof fn law_limit_in_a_second(entry: Option<(u32, u64)>, times: Seq<u64>, limit: u32)
    requires
        1 <= limit || entry is None,
        1 <= times.len(),
        limit < u32::MAX || times.len() <= u32::MAX,
        entry matches Some(e) ==> times[0] >= e.1 + SECOND,
        forall|i: int|
            0 <= i < times.len() ==> times[0] <= #[trigger] times[i] < times[0] + SECOND,
    ensures
        second_count(entry, times, limit) == Some((capped(times.len()), times[0])),
        second_step(second_count(entry, times.drop_last(), limit), times.last(), limit).1
            <==> times.len() <= limit,
    decreases times.len(),
{
    let init = times.drop_last();
    if times.len() == 1 {
        assert(second_count(entry, init, limit) == entry);
        assert(times.last() == times[0]);
    } else {
        assert forall|i: int| 0 <= i < init.len() implies init[0] <= #[trigger] init[i] < init[0]
            + SECOND by {
            assert(init[i] == times[i]);
        }
        law_limit_in_a_second(entry, init, limit);
        assert(times[times.len() - 1] == times.last());
        assert(init[0] == times[0]);
    }
}

/// The counts of all clients after requests, each of a client at a moment.
pub open spec fn second_table(
    counts: Map<Seq<char>, (u32, u64)>,
    requests: Seq<(Seq<char>, u64)>,
    limit: u32,
) -> Map<Seq<char>, (u32, u64)>
    decreases requests.len(),
{
    if requests.len() == 0 {
        counts
    } else {
        let before = second_table(counts, requests.drop_last(), limit);
        let (ip, now) = requests.last();
        before.insert(ip, second_step(count_of(before, ip), now, limit).0)
    }
}

/// When a client made its requests.
pub open spec fn times_of(requests: Seq<(Seq<char>, u64)>, ip: Seq<char>) -> Seq<u64>
    decreases requests.len(),
{
    if requests.len() == 0 {
        seq![]
    } else if requests.last().0 == ip {
        times_of(requests.drop_last(), ip).push(requests.last().1)
    } else {
        times_of(requests.drop_last(), ip)
    }
}

/// Whatever requests of other clients come between them, a client is judged by its own requests
/// alone.
pub proof fn law_own_requests_decide(
    counts: Map<Seq<char>, (u32, u64)>,
    requests: Seq<(Seq<char>, u64)>,
    ip: Seq<char>,
    limit: u32,
)
    ensures
        count_of(second_table(counts, requests, limit), ip) == second_count(
            count_of(counts, ip),
            times_of(requests, ip),
            limit,
        ),
    decreases requests.len(),
{
    if requests.len() > 0 {
        law_own_requests_decide(counts, requests.drop_last(), ip, limit);
        let before = times_of(requests.drop_last(), ip);
        assert(before.push(requests.last().1).drop_last() =~= before);
    }
}

/// A client that is refused because it asks too often is on the list that is written, and banned
/// by it for the whole time of a ban.
pub proof fn law_refused_client_is_blocked(
    file: BanFile,
    ip: Seq<char>,
    refused_at: nat,
    now: int,
    ban_secs: int,
)
    requires
        is_listable(ip),
        !(file is Unreadable),
        refused_at <= u64::MAX,
        refused_at <= now < refused_at + ban_secs,
    ensures
        file.banning(ip, refused_at) matches Some(l) && list_holds(l, ip, now, ban_secs),
{
    match file {
        BanFile::Missing => law_banned_client_is_blocked(
            empty_list(),
            ip,
            refused_at,
            now,
            ban_secs,
        ),
        BanFile::Unreadable => {},
        BanFile::Holds(l) => law_banned_client_is_blocked(l@, ip, refused_at, now, ban_secs),
    }
}

proof fn lemma_asked_at(v: LimiterView, ip: Seq<char>, now_secs: u64, times: Seq<u64>)
    ensures
        v.asked(ip, now_secs, times).rate_limit == v.rate_limit,
        count_of(v.asked(ip, now_secs, times).counts, ip) == second_count(
            count_of(v.counts, ip),
            times,
            v.rate_limit,
        ),
    decreases times.len(),
{
    if times.len() > 0 {
        lemma_asked_at(v, ip, now_secs, times.drop_last());
    }
}

/// Whoever the client is, and whatever it asks for, it is answered as often within a second as the
/// limit says; the request after that is refused, and the client put on the list.
pub proof fn law_too_many_requests_are_refused(
    v: LimiterView,
    ip: Seq<char>,
    now_secs: u64,
    times: Seq<u64>,
    now: u64,
)
    requires
        1 <= v.rate_limit < u32::MAX,
        !v.counts.contains_key(ip),
        times.len() > 0 ==> times[0] <= now < times[0] + 1_000_000_000,
        forall|i: int|
            0 <= i < times.len() ==> times[0] <= #[trigger] times[i] < times[0] + 1_000_000_000,
    ensures
        ({
            let end = v.asked(ip, now_secs, times).called(ip, BanFile::Missing, now_secs, now);
            &&& end.1 <==> times.len() >= v.rate_limit
            &&& end.2 is Some <==> times.len() >= v.rate_limit
        }),
{
    let all = times.push(now);
    lemma_asked_at(v, ip, now_secs, times);
    assert forall|i: int| 0 <= i < all.len() implies all[0] <= #[trigger] all[i] < all[0]
        + SECOND by {
        if i < times.len() {
            assert(all[i] == times[i]);
        }
    }
    law_limit_in_a_second(count_of(v.counts, ip), all, v.rate_limit);
    assert(all.drop_last() =~= times);
}

/// A banned client is refused, whoever it is, and is neither counted nor put on the list again.
pub proof fn law_banned_client_is_refused(
    v: LimiterView,
    ip: Seq<char>,
    file: BanFile,
    now_secs: u64,
    now: u64,
)
    requires
        file.list() is Some,
        list_holds(file.list()->0, ip, now_secs as int, v.ban_secs as int),
    ensures
        v.called(ip, file, now_secs, now) == (v, true, None::<Seq<char>>),
{
}

/// A client that waits a second is allowed again.
pub proof fn law_allowed_after_a_second(entry: (u32, u64), now: u64, limit: u32)
    requires
        now >= entry.1 + SECOND,
    ensures
        second_step(Some(entry), now, limit) == ((1u32, now), true),
{
}

/// The count of a client after so many requests in an hour.
pub open spec fn hour_count(entry: Option<(u32, u64)>, hour: u64, n: nat, limit: u32) -> Option<
    (u32, u64),
>
    decreases n,
{
    if n == 0 {
        entry
    } else {
        Some(hour_step(hour_count(entry, hour, (n - 1) as nat, limit), hour, limit).0)
    }
}

/// In each hour as many requests of a client are allowed as the limit says, and no more, whatever
/// it did in hours before.
pub proof fn law_limit_in_an_hour(entry: Option<(u32, u64)>, hour: u64, n: nat, limit: u32)
    requires
        1 <= limit || entry is None,
        1 <= n,
        limit < u32::MAX || n <= u32::MAX,
        entry matches Some(e) ==> e.1 != hour,
    ensures
        hour_count(entry, hour, n, limit) == Some((capped(n), hour)),
        hour_step(hour_count(entry, hour, (n - 1) as nat, limit), hour, limit).1 <==> n <= limit,
    decreases n,
{
    if n > 1 {
        law_limit_in_an_hour(entry, hour, (n - 1) as nat, limit);
    } else {
        assert(hour_count(entry, hour, 0, limit) == entry);
    }
}

/// The counts of all clients after requests, each of a client in an hour.
pub open spec fn hour_table(
    counts: Map<Seq<char>, (u32, u64)>,
    requests: Seq<(Seq<char>, u64)>,
    limit: u32,
) -> Map<Seq<char>, (u32, u64)>
    decreases requests.len(),
{
    if requests.len() == 0 {
        counts
    } else {
        let before = hour_table(counts, requests.drop_last(), limit);
        let (ip, hour) = requests.last();
        before.insert(ip, hour_step(count_of(before, ip), hour, limit).0)
    }
}

/// How many requests a client made in an hour.
pub open spec fn made_in(requests: Seq<(Seq<char>, u64)>, ip: Seq<char>, hour: u64) -> nat
    decreases requests.len(),
{
    if requests.len() == 0 {
        0
    } else {
        made_in(requests.drop_last(), ip, hour) + if requests.last() == (ip, hour) {
            1nat
        } else {
            0nat
        }
    }
}

/// How many requests of a client were allowed in an hour, by a limiter that had counted nothing.
pub open spec fn allowed_in(
    requests: Seq<(Seq<char>, u64)>,
    ip: Seq<char>,
    hour: u64,
    limit: u32,
) -> nat
    decreases requests.len(),
{
    if requests.len() == 0 {
        0
    } else {
        let before = hour_table(Map::empty(), requests.drop_last(), limit);
        allowed_in(requests.drop_last(), ip, hour, limit) + if requests.last() == (ip, hour)
            && hour_step(count_of(before, ip), hour, limit).1 {
            1nat
        } else {
            0nat
        }
    }
}

/// Requests that came one after the other.
pub open spec fn in_order(requests: Seq<(Seq<char>, u64)>) -> bool {
    forall|i: int, j: int|
        0 <= i <= j < requests.len() ==> (#[trigger] requests[i]).1 <= (#[trigger] requests[j]).1
}

/// A request of those made is allowed, by a limiter that had counted nothing.
pub open spec fn allowed_at(requests: Seq<(Seq<char>, u64)>, i: int, limit: u32) -> bool {
    let (ip, hour) = requests[i];
    hour_step(
        count_of(hour_table(Map::empty(), requests.take(i), limit), ip),
        hour,
        limit,
    ).1
}

/// A number, as far as a counter goes.
pub open spec fn capped(n: nat) -> u32 {
    if n <= u32::MAX {
        n as u32
    } else {
        u32::MAX
    }
}

/// The count of a client is that of its latest hour.
proof fn lemma_hour_table(requests: Seq<(Seq<char>, u64)>, ip: Seq<char>, limit: u32)
    requires
        in_order(requests),
    ensures
        match count_of(hour_table(Map::empty(), requests, limit), ip) {
            Some(e) => {
                &&& e.0 == capped(made_in(requests, ip, e.1))
                &&& e.1 <= requests.last().1
                &&& forall|h: u64| h > e.1 ==> #[trigger] made_in(requests, ip, h) == 0
            },
            None => forall|h: u64| #[trigger] made_in(requests, ip, h) == 0,
        },
    decreases requests.len(),
{
    if requests.len() > 0 {
        let init = requests.drop_last();
        assert(forall|i: int| 0 <= i < init.len() ==> #[trigger] init[i] == requests[i]);
        lemma_hour_table(init, ip, limit);
        let (who, hour) = requests.last();
        assert(requests[requests.len() - 1] == requests.last());
        if init.len() > 0 {
            assert(requests[init.len() - 1] == init.last());
            assert(init.last().1 <= hour);
        }
        if who == ip {
            assert(made_in(requests, ip, hour) == made_in(init, ip, hour) + 1);
            assert forall|h: u64| h > hour implies #[trigger] made_in(requests, ip, h) == 0 by {
                assert(made_in(requests, ip, h) == made_in(init, ip, h));
            }
        } else {
            assert forall|h: u64| #[trigger] made_in(requests, ip, h) == made_in(init, ip, h) by {}
        }
    } else {
        assert(hour_table(Map::empty(), requests, limit) =~= Map::empty());
    }
}

/// The hours of requests that were made at moments, in seconds since the start of 1970.
pub open spec fn in_hours(requests: Seq<(Seq<char>, u64)>) -> Seq<(Seq<char>, u64)> {
    Seq::new(requests.len(), |i: int| (requests[i].0, requests[i].1 / 3600))
}

/// Requests that came one after the other by their moments did so by their hours.
pub proof fn law_hours_keep_the_order(requests: Seq<(Seq<char>, u64)>)
    requires
        in_order(requests),
    ensures
        in_order(in_hours(requests)),
{
    let hours = in_hours(requests);
    assert forall|i: int, j: int| 0 <= i <= j < hours.len() implies (#[trigger] hours[i]).1 <= (
    #[trigger] hours[j]).1 by {
        assert(requests[i].1 <= requests[j].1);
    }
}

/// A limit that a counter can tell from the counts above it.
pub open spec fn is_countable(
    requests: Seq<(Seq<char>, u64)>,
    ip: Seq<char>,
    hour: u64,
    limit: u32,
) -> bool {
    limit < u32::MAX || made_in(requests, ip, hour) <= u32::MAX
}

/// In whatever order clients ask, and however often, of the requests of a client in an hour the
/// first ones are allowed, as many as the limit says, and none after them.
pub proof fn law_first_requests_are_allowed(
    requests: Seq<(Seq<char>, u64)>,
    i: int,
    limit: u32,
)
    requires
        in_order(requests),
        0 <= i < requests.len(),
        1 <= limit,
        is_countable(requests.take(i + 1), requests[i].0, requests[i].1, limit),
    ensures
        allowed_at(requests, i, limit) <==> made_in(
            requests.take(i + 1),
            requests[i].0,
            requests[i].1,
        ) <= limit,
{
    let (ip, hour) = requests[i];
    let before = requests.take(i);
    assert(forall|k: int| 0 <= k < before.len() ==> #[trigger] before[k] == requests[k]);
    assert(requests.take(i + 1).drop_last() =~= before);
    assert(requests.take(i + 1).last() == requests[i]);
    lemma_hour_table(before, ip, limit);
    assert(made_in(requests.take(i + 1), ip, hour) == made_in(before, ip, hour) + 1);
    if before.len() > 0 {
        assert(before.last() == requests[i - 1]);
        assert(before.last().1 <= hour);
    }
}

/// In whatever order clients ask, and however often, in each hour each of them is allowed as many
/// requests as the limit says, and all of them where it made fewer.
pub proof fn law_hourly_limit(
    requests: Seq<(Seq<char>, u64)>,
    ip: Seq<char>,
    hour: u64,
    limit: u32,
)
    requires
        in_order(requests),
        1 <= limit,
        is_countable(requests, ip, hour, limit),
    ensures
        allowed_in(requests, ip, hour, limit) == if made_in(requests, ip, hour) <= limit {
            made_in(requests, ip, hour)
        } else {
            limit as nat
        },
    decreases requests.len(),
{
    if requests.len() > 0 {
        let init = requests.drop_last();
        let n = requests.len() - 1;
        assert(forall|i: int| 0 <= i < init.len() ==> #[trigger] init[i] == requests[i]);
        law_hourly_limit(init, ip, hour, limit);
        if requests.last() == (ip, hour) {
            assert(requests[n] == requests.last());
            assert(requests.take(n + 1) =~= requests);
            assert(requests.take(n) =~= init);
            law_first_requests_are_allowed(requests, n, limit);
        }
    }
}

/// Whatever a client asks for below the builds, be it the state, the events or the package of a
/// task, counts for the hour; so do its uploads and its requests for builds, whatever their paths
/// go on with.
pub proof fn law_requests_that_count(v: HourlyView, ip: Seq<char>, rest: Seq<char>, now: u64)
    requires
        v.counts.contains_key(ip) ==> v.counts[ip].0 < u32::MAX,
    ensures
        ({
            let before: (u32, u64) = if v.counts.contains_key(ip) && v.counts[ip].1 == now / 3600 {
                v.counts[ip]
            } else {
                (0u32, now / 3600)
            };
            let after = HourlyView {
                counts: v.counts.insert(ip, ((before.0 + 1) as u32, (now / 3600) as u64)),
                ..v
            };
            &&& v.called(ip, "/api/v1/build/"@ + rest, "GET"@, now).0 == after
            &&& v.called(ip, "/api/v1/build"@ + rest, "POST"@, now).0 == after
            &&& v.called(ip, "/api/v1/upload"@ + rest, "POST"@, now).0 == after
            &&& v.called(ip, "/api/v1/build/"@ + (rest + "/status"@), "GET"@, now).0 == after
            &&& v.called(ip, "/api/v1/build/"@ + (rest + "/events"@), "GET"@, now).0 == after
            &&& v.called(ip, "/api/v1/build/"@ + (rest + "/download"@), "GET"@, now).0 == after
        }),
{
    lemma_prefix_counts("/api/v1/build/"@, rest);
    lemma_prefix_counts("/api/v1/build"@, rest);
    lemma_prefix_counts("/api/v1/upload"@, rest);
    lemma_prefix_counts("/api/v1/build/"@, rest + "/status"@);
    lemma_prefix_counts("/api/v1/build/"@, rest + "/events"@);
    lemma_prefix_counts("/api/v1/build/"@, rest + "/download"@);
}

proof fn lemma_prefix_counts(prefix: Seq<char>, rest: Seq<char>)
    ensures
        prefix.is_prefix_of(prefix + rest),
{
    assert((prefix + rest).subrange(0, prefix.len() as int) =~= prefix);
}

/// A request that counts is refused exactly where the client has made as many in the hour as the
/// limit says, and a request for anything below the builds is one.
pub proof fn law_request_is_refused(v: HourlyView, ip: Seq<char>, rest: Seq<char>, now: u64)
    requires
        1 <= v.limit_per_hour < u32::MAX,
    ensures
        ({
            let used_up = v.counts.contains_key(ip) && v.counts[ip].1 == now / 3600
                && v.counts[ip].0 >= v.limit_per_hour;
            &&& v.called(ip, "/api/v1/build/"@ + rest, "GET"@, now).1 <==> used_up
            &&& v.called(ip, "/api/v1/build"@ + rest, "POST"@, now).1 <==> used_up
            &&& v.called(ip, "/api/v1/upload"@ + rest, "POST"@, now).1 <==> used_up
        }),
{
    lemma_prefix_counts("/api/v1/build/"@, rest);
    lemma_prefix_counts("/api/v1/build"@, rest);
    lemma_prefix_counts("/api/v1/upload"@, rest);
}

/// A request that asks for something else, or in another way, is not counted and not refused.
pub proof fn law_other_requests_do_not_count(
    v: HourlyView,
    ip: Seq<char>,
    path: Seq<char>,
    method: Seq<char>,
    now: u64,
)
    requires
        method != "POST"@ || !("/api/v1/upload"@.is_prefix_of(path)
            || "/api/v1/build"@.is_prefix_of(path)),
        method != "GET"@ || !"/api/v1/build/"@.is_prefix_of(path),
    ensures
        v.called(ip, path, method, now) == (v, false),
{
}

proof fn lemma_asked(
    v: HourlyView,
    ip: Seq<char>,
    rests: Seq<Seq<char>>,
    times: Seq<u64>,
    hour: u64,
)
    requires
        rests.len() <= times.len(),
        forall|k: int| 0 <= k < rests.len() ==> #[trigger] times[k] / 3600 == hour,
    ensures
        v.asked_below_builds(ip, rests, times).limit_per_hour == v.limit_per_hour,
        count_of(v.asked_below_builds(ip, rests, times).counts, ip) == hour_count(
            count_of(v.counts, ip),
            hour,
            rests.len(),
            v.limit_per_hour,
        ),
    decreases rests.len(),
{
    if rests.len() > 0 {
        lemma_asked(v, ip, rests.drop_last(), times, hour);
        lemma_prefix_counts("/api/v1/build/"@, rests.last());
        assert(times[rests.len() - 1] / 3600 == hour);
    }
}

/// A client that asks for anything below the builds, whatever that is, is answered as often in an
/// hour as the limit says, and refused from then on.
pub proof fn law_questions_about_builds_are_limited(
    v: HourlyView,
    ip: Seq<char>,
    rests: Seq<Seq<char>>,
    times: Seq<u64>,
    next: Seq<char>,
    now: u64,
)
    requires
        1 <= v.limit_per_hour < u32::MAX,
        rests.len() == times.len(),
        forall|k: int| 0 <= k < rests.len() ==> #[trigger] times[k] / 3600 == now / 3600,
        !v.counts.contains_key(ip) || v.counts[ip].1 != now / 3600,
    ensures
        v.asked_below_builds(ip, rests, times).called(
            ip,
            "/api/v1/build/"@ + next,
            "GET"@,
            now,
        ).1 <==> rests.len() >= v.limit_per_hour,
{
    lemma_asked(v, ip, rests, times, now / 3600);
    lemma_prefix_counts("/api/v1/build/"@, next);
    law_limit_in_an_hour(
        count_of(v.counts, ip),
        now / 3600,
        rests.len() + 1,
        v.limit_per_hour,
    );
}

/// The requests of one client do not count for another.
pub proof fn law_clients_are_counted_apart(
    counts: Map<Seq<char>, (u32, u64)>,
    ip: Seq<char>,
    other: Seq<char>,
    count: (u32, u64),
)
    requires
        ip != other,
    ensures
        count_of(counts.insert(ip, count), other) == count_of(counts, other),
{
}

} // verus!
