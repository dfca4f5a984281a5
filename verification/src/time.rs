//! Points in time: whole seconds since the start of 1970 and nanoseconds.
use crate::outside::{
    clock_reading, format_instant, has_four_digit_year, instant_text, instant_value, is_instant,
    parse_instant,
};
use crate::text::text_before;
use vstd::prelude::*;

verus! {

#[derive(Clone, Copy, Debug, PartialEq, Eq, Structural)]
pub struct Timestamp {
    pub secs: i64,
    pub nanos: u32,
}

impl Timestamp {
    /// A point in time that has a date.
    pub open spec fn valid(self) -> bool {
        is_instant(self.secs as int, self.nanos as int)
    }

    /// A point in time outside leap seconds.
    pub open spec fn plain(self) -> bool {
        self.valid() && self.nanos < 1_000_000_000
    }

    /// A point in time whose text is read back as the same point.
    pub open spec fn recordable(self) -> bool {
        has_four_digit_year(self.secs as int, self.nanos as int)
    }

    pub open spec fn earlier(self, other: Timestamp) -> bool {
        self.secs < other.secs || (self.secs == other.secs && self.nanos < other.nanos)
    }

    /// The RFC 3339 text.
    pub open spec fn text(self) -> Seq<char> {
        instant_text(self.secs, self.nanos)
    }

    /// The texts of the points that come before this one come before its text.
    pub open spec fn written_in_order(self) -> bool {
        forall|other: Timestamp|
            other.recordable() ==> (#[trigger] text_before(other.text(), self.text())
                <==> other.earlier(self))
    }

    /// The point `secs` seconds away can be told.
    pub open spec fn can_shift(self, secs: int) -> bool {
        self.valid() && is_instant(self.base(secs) + secs, (self.nanos % 1_000_000_000) as int)
    }

    /// The second from which seconds are counted: a leap second is left forwards with the second
    /// that it follows, and backwards with the one that follows it.
    pub open spec fn base(self, secs: int) -> int {
        if self.nanos >= 1_000_000_000 && secs < 0 {
            self.secs + 1
        } else {
            self.secs as int
        }
    }

    /// The point `secs` seconds away. Only a leap second itself stays one.
    pub open spec fn shifted(self, secs: int) -> Timestamp {
        if secs == 0 {
            self
        } else {
            Timestamp {
                secs: (self.base(secs) + secs) as i64,
                nanos: (self.nanos % 1_000_000_000) as u32,
            }
        }
    }

    /// The present moment.
    pub fn now() -> (r: Timestamp)
        ensures
            r.plain(),
            r.secs >= 0,
    {
        let (secs, nanos) = clock_reading();
        Timestamp { secs, nanos }
    }

    pub fn before(&self, other: &Timestamp) -> (r: bool)
        ensures
            r == self.earlier(*other),
    {
        self.secs < other.secs || (self.secs == other.secs && self.nanos < other.nanos)
    }

    pub fn to_rfc3339(&self) -> (r: String)
        requires
            self.valid(),
        ensures
            r@ == self.text(),
            self.recordable() ==> instant_value(r@) == Some((self.secs, self.nanos)),
            self.recordable() ==> self.written_in_order(),
    {
        let r = format_instant(self.secs, self.nanos);
        proof {
            if self.recordable() {
                assert forall|other: Timestamp| other.recordable() implies (#[trigger] text_before(
                    other.text(),
                    self.text(),
                ) <==> other.earlier(*self)) by {
                    assert(text_before(instant_text(other.secs, other.nanos), r@) <==> other.secs
                        < self.secs || (other.secs == self.secs && other.nanos < self.nanos));
                }
            }
        }
        r
    }

    pub fn parse_from_rfc3339(text: &str) -> (r: Option<Timestamp>)
        ensures
            match r {
                Some(t) => instant_value(text@) == Some((t.secs, t.nanos)) && t.valid(),
                None => instant_value(text@) is None,
            },
    {
        match parse_instant(text) {
            Some(p) => Some(Timestamp { secs: p.0, nanos: p.1 }),
            None => None,
        }
    }

    /// The second from which `secs` seconds are counted, and the second that they lead to.
    fn reached(&self, secs: i128) -> (r: i128)
        requires
            -0x1_0000_0000_0000_0000_0000 < secs < 0x1_0000_0000_0000_0000_0000,
        ensures
            r == self.base(secs as int) + secs,
    {
        if self.nanos >= 1_000_000_000 && secs < 0 {
            self.secs as i128 + 1 + secs
        } else {
            self.secs as i128 + secs
        }
    }

    fn is_reachable(secs: i128) -> (r: bool)
        ensures
            r == (-8_334_601_228_800 <= secs <= 8_210_266_876_799),
    {
        -8_334_601_228_800 <= secs && secs <= 8_210_266_876_799
    }

    fn shift(&self, secs: i128) -> (r: Timestamp)
        requires
            -0x1_0000_0000_0000_0000_0000 < secs < 0x1_0000_0000_0000_0000_0000,
            self.can_shift(secs as int),
        ensures
            r == self.shifted(secs as int),
            r.valid(),
            self.plain() ==> r.plain(),
    {
        if secs == 0 {
            *self
        } else {
            Timestamp { secs: self.reached(secs) as i64, nanos: self.nanos % 1_000_000_000 }
        }
    }

    /// Whether the point `secs` seconds later can be told.
    pub fn reaches(&self, secs: u64) -> (r: bool)
        requires
            self.valid(),
        ensures
            r == self.can_shift(secs as int),
    {
        Timestamp::is_reachable(self.reached(secs as i128))
    }

    /// Whether the point `secs` seconds earlier can be told.
    pub fn reaches_back(&self, secs: u64) -> (r: bool)
        requires
            self.valid(),
        ensures
            r == self.can_shift(-secs),
    {
        Timestamp::is_reachable(self.reached(-(secs as i128)))
    }

    /// Whether the point `hours` hours away can be told.
    pub fn can_move(&self, hours: i64) -> (r: bool)
        ensures
            r == self.can_shift(hours * 3600),
    {
        let valid = Timestamp::is_reachable(self.secs as i128) && self.nanos < 2_000_000_000
            && (self.nanos < 1_000_000_000 || (self.secs as i128 + 8_334_601_228_800) % 60 == 59);
        valid && Timestamp::is_reachable(self.reached(hours as i128 * 3600))
    }

    /// The point `hours` hours away.
    pub fn moved(&self, hours: i64) -> (r: Timestamp)
        requires
            self.can_shift(hours * 3600),
        ensures
            r == self.shifted(hours * 3600),
            r.valid(),
    {
        self.shift(hours as i128 * 3600)
    }

    /// The point `secs` seconds later.
    pub fn plus_seconds(&self, secs: u64) -> (r: Timestamp)
        requires
            self.can_shift(secs as int),
        ensures
            r == self.shifted(secs as int),
            r.valid(),
            self.plain() ==> r.plain(),
    {
        self.shift(secs as i128)
    }

    /// The point `secs` seconds earlier.
    pub fn minus_seconds(&self, secs: u64) -> (r: Timestamp)
        requires
            self.can_shift(-secs),
        ensures
            r == self.shifted(-secs),
            r.valid(),
            self.plain() ==> r.plain(),
    {
        self.shift(-(secs as i128))
    }
}

/// Of two points in time one is earlier, unless they are the same; and what is earlier than an
/// earlier point is earlier.
pub proof fn law_points_are_ordered(a: Timestamp, b: Timestamp, c: Timestamp)
    ensures
        a == b || a.earlier(b) || b.earlier(a),
        !(a.earlier(b) && b.earlier(a)),
        a.earlier(b) && b.earlier(c) ==> a.earlier(c),
        a.secs < b.secs ==> a.earlier(b),
        a.secs == b.secs ==> (a.earlier(b) <==> a.nanos < b.nanos),
{
}

/// Outside leap seconds the point so many seconds away has as many more seconds and the same
/// nanoseconds; it is later where the number is positive, and the way back leads to where one was.
pub proof fn law_seconds_are_added(t: Timestamp, secs: int)
    requires
        t.plain(),
        t.can_shift(secs),
    ensures
        t.shifted(secs).secs == t.secs + secs,
        t.shifted(secs).nanos == t.nanos,
        t.shifted(secs).shifted(-secs) == t,
        t.earlier(t.shifted(secs)) <==> secs > 0,
        t.shifted(secs).earlier(t) <==> secs < 0,
{
}

} // verus!
