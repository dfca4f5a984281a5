//! How many requests each client has made.
use crate::text::same_text;
use vstd::prelude::*;

verus! {

/// The count of one client, and when or for what span it started.
#[derive(Debug)]
pub struct Counter {
    pub ip: String,
    pub count: u32,
    pub mark: u64,
}

/// The counts of all clients; no client has two.
#[derive(Debug)]
pub struct Counters {
    list: Vec<Counter>,
}

spec fn is_at(list: Seq<Counter>, ip: Seq<char>, i: int) -> bool {
    0 <= i < list.len() && list[i].ip@ == ip
}

spec fn holds(list: Seq<Counter>, ip: Seq<char>) -> bool {
    exists|i: int| is_at(list, ip, i)
}

spec fn value_of(list: Seq<Counter>, ip: Seq<char>) -> (u32, u64) {
    let i = choose|i: int| is_at(list, ip, i);
    (list[i].count, list[i].mark)
}

spec fn distinct(list: Seq<Counter>) -> bool {
    forall|i: int, j: int|
        0 <= i < list.len() && 0 <= j < list.len() && #[trigger] list[i].ip@
            == #[trigger] list[j].ip@ ==> i == j
}

spec fn table_of(list: Seq<Counter>) -> Map<Seq<char>, (u32, u64)> {
    Map::new(|ip: Seq<char>| holds(list, ip), |ip: Seq<char>| value_of(list, ip))
}

impl View for Counters {
    type V = Map<Seq<char>, (u32, u64)>;

    closed spec fn view(&self) -> Map<Seq<char>, (u32, u64)> {
        table_of(self.list@)
    }
}

/// The count of a client, where it has one.
pub open spec fn count_of(table: Map<Seq<char>, (u32, u64)>, ip: Seq<char>) -> Option<(u32, u64)> {
    if table.contains_key(ip) {
        Some(table[ip])
    } else {
        None
    }
}

proof fn lemma_value(list: Seq<Counter>, ip: Seq<char>, i: int)
    requires
        distinct(list),
        is_at(list, ip, i),
    ensures
        holds(list, ip),
        value_of(list, ip) == (list[i].count, list[i].mark),
{
    let j = choose|j: int| is_at(list, ip, j);
    assert(is_at(list, ip, j));
    assert(list[i].ip@ == list[j].ip@);
}

impl Counters {
    pub closed spec fn wf(&self) -> bool {
        distinct(self.list@)
    }

    pub fn new() -> (r: Counters)
        ensures
            r.wf(),
            r@ == Map::<Seq<char>, (u32, u64)>::empty(),
    {
        let r = Counters { list: Vec::new() };
        assert(r@ =~= Map::<Seq<char>, (u32, u64)>::empty());
        r
    }

    fn position(&self, ip: &str) -> (r: Option<usize>)
        ensures
            match r {
                Some(i) => is_at(self.list@, ip@, i as int),
                None => !holds(self.list@, ip@),
            },
    {
        let mut i: usize = 0;
        while i < self.list.len()
            invariant
                i <= self.list.len(),
                forall|k: int| 0 <= k < i ==> !is_at(self.list@, ip@, k),
            decreases self.list.len() - i,
        {
            if same_text(self.list[i].ip.as_str(), ip) {
                return Some(i);
            }
            i += 1;
        }
        None
    }

    /// The count of a client, where it has one.
    pub fn get(&self, ip: &str) -> (r: Option<(u32, u64)>)
        requires
            self.wf(),
        ensures
            r == count_of(self@, ip@),
    {
        match self.position(ip) {
            Some(i) => {
                proof {
                    lemma_value(self.list@, ip@, i as int);
                }
                Some((self.list[i].count, self.list[i].mark))
            },
            None => None,
        }
    }

    /// Gives a client a count.
    pub fn set(&mut self, ip: &str, count: u32, mark: u64)
        requires
            old(self).wf(),
        ensures
            final(self).wf(),
            final(self)@ == old(self)@.insert(ip@, (count, mark)),
    {
        let ghost before = self.list@;
        match self.position(ip) {
            Some(i) => {
                let entry = Counter { ip: ip.to_owned(), count, mark };
                self.list.set(i, entry);
                let ghost after = self.list@;
                proof {
                    assert(after =~= before.update(i as int, entry));
                    assert forall|k: int| 0 <= k < after.len() implies #[trigger] after[k].ip@
                        == before[k].ip@ by {}
                    assert(distinct(after)) by {
                        assert forall|a: int, b: int|
                            0 <= a < after.len() && 0 <= b < after.len() && #[trigger] after[a].ip@
                                == #[trigger] after[b].ip@ implies a == b by {
                            assert(before[a].ip@ == before[b].ip@);
                        }
                    }
                    lemma_same_but(before, after, ip@, i as int, count, mark);
                }
            },
            None => {
                let entry = Counter { ip: ip.to_owned(), count, mark };
                self.list.push(entry);
                let ghost after = self.list@;
                proof {
                    let n = before.len() as int;
                    assert(distinct(after)) by {
                        assert forall|a: int, b: int|
                            0 <= a < after.len() && 0 <= b < after.len() && #[trigger] after[a].ip@
                                == #[trigger] after[b].ip@ implies a == b by {
                            if a < n && b < n {
                                assert(before[a].ip@ == before[b].ip@);
                            } else if a < n {
                                assert(is_at(before, ip@, a));
                            } else if b < n {
                                assert(is_at(before, ip@, b));
                            }
                        }
                    }
                    lemma_same_but(before, after, ip@, n, count, mark);
                }
            },
        }
    }

    /// Keeps the clients whose mark is less than `age` before `now`.
    pub fn keep_recent(&mut self, now: u64, age: u64)
        requires
            old(self).wf(),
        ensures
            final(self).wf(),
            final(self)@ == old(self)@.restrict(
                Set::new(
                    |ip: Seq<char>|
                        old(self)@.contains_key(ip) && is_recent(old(self)@[ip].1, now, age),
                ),
            ),
    {
        let ghost before = self.list@;
        let mut kept: Vec<Counter> = Vec::new();
        let ghost mut places: Seq<int> = seq![];
        let mut i: usize = 0;
        while i < self.list.len()
            invariant
                self.list@ == before,
                distinct(before),
                i <= before.len(),
                places.len() == kept@.len(),
                forall|k: int|
                    0 <= k < places.len() ==> 0 <= #[trigger] places[k] < i
                        && before[places[k]].ip@ == kept@[k].ip@ && before[places[k]].count
                        == kept@[k].count && before[places[k]].mark == kept@[k].mark && is_recent(
                        kept@[k].mark,
                        now,
                        age,
                    ),
                forall|a: int, b: int|
                    0 <= a < b < places.len() ==> #[trigger] places[a] < #[trigger] places[b],
                forall|m: int|
                    0 <= m < i && is_recent((#[trigger] before[m]).mark, now, age) ==> exists|
                        k: int,
                    |
                        0 <= k < places.len() && places[k] == m,
            decreases self.list.len() - i,
        {
            let c = &self.list[i];
            let elapsed: u64 = if now >= c.mark {
                now - c.mark
            } else {
                0
            };
            let ghost had = places;
            if elapsed < age {
                kept.push(Counter { ip: c.ip.clone(), count: c.count, mark: c.mark });
                proof {
                    places = places.push(i as int);
                    assert forall|m: int|
                        0 <= m < i + 1 && is_recent(
                            (#[trigger] before[m]).mark,
                            now,
                            age,
                        ) implies exists|k: int| 0 <= k < places.len() && places[k] == m by {
                        if m < i {
                            let k = choose|k: int| 0 <= k < had.len() && had[k] == m;
                            assert(places[k] == m);
                        } else {
                            assert(places[had.len() as int] == m);
                        }
                    }
                }
            }
            i += 1;
        }
        self.list = kept;
        let ghost after = self.list@;
        proof {
            assert(distinct(after)) by {
                assert forall|a: int, b: int|
                    0 <= a < after.len() && 0 <= b < after.len() && #[trigger] after[a].ip@
                        == #[trigger] after[b].ip@ implies a == b by {
                    assert(before[places[a]].ip@ == before[places[b]].ip@);
                    assert(places[a] == places[b]);
                }
            }
            let recent = Set::new(
                |ip: Seq<char>|
                    table_of(before).contains_key(ip) && is_recent(
                        table_of(before)[ip].1,
                        now,
                        age,
                    ),
            );
            assert forall|ip: Seq<char>| holds(after, ip) <==> table_of(before).restrict(
                recent,
            ).contains_key(ip) by {
                if holds(after, ip) {
                    let k = choose|k: int| is_at(after, ip, k);
                    assert(is_at(before, ip, places[k]));
                    lemma_value(before, ip, places[k]);
                } else if table_of(before).restrict(recent).contains_key(ip) {
                    let m = choose|m: int| is_at(before, ip, m);
                    lemma_value(before, ip, m);
                    let k = choose|k: int| 0 <= k < places.len() && places[k] == m;
                    assert(is_at(after, ip, k));
                }
            }
            assert forall|ip: Seq<char>| holds(after, ip) implies value_of(after, ip) == value_of(
                before,
                ip,
            ) by {
                let k = choose|k: int| is_at(after, ip, k);
                lemma_value(after, ip, k);
                assert(is_at(before, ip, places[k]));
                lemma_value(before, ip, places[k]);
            }
            assert(table_of(after) =~= table_of(before).restrict(recent));
        }
    }
}

/// Less than `age` has passed since a mark.
pub open spec fn is_recent(mark: u64, now: u64, age: u64) -> bool {
    (if now >= mark {
        now - mark
    } else {
        0
    }) < age
}

/// Two lists with the same clients and counts but for one client's place.
proof fn lemma_same_but(
    before: Seq<Counter>,
    after: Seq<Counter>,
    ip: Seq<char>,
    i: int,
    count: u32,
    mark: u64,
)
    requires
        distinct(before),
        distinct(after),
        is_at(after, ip, i),
        after[i].count == count,
        after[i].mark == mark,
        before.len() <= after.len() <= before.len() + 1,
        after.len() > before.len() ==> i == before.len(),
        forall|k: int| 0 <= k < before.len() && k != i ==> after[k] == before[k],
        i < before.len() ==> before[i].ip@ == ip,
    ensures
        table_of(after) == table_of(before).insert(ip, (count, mark)),
{
    lemma_value(after, ip, i);
    assert forall|x: Seq<char>| x != ip implies holds(after, x) == holds(before, x) by {
        if holds(after, x) {
            let k = choose|k: int| is_at(after, x, k);
            assert(is_at(before, x, k));
        }
        if holds(before, x) {
            let k = choose|k: int| is_at(before, x, k);
            assert(is_at(after, x, k));
        }
    }
    assert forall|x: Seq<char>| x != ip && holds(before, x) implies value_of(after, x) == value_of(
        before,
        x,
    ) by {
        let k = choose|k: int| is_at(before, x, k);
        lemma_value(before, x, k);
        assert(is_at(after, x, k));
        lemma_value(after, x, k);
    }
    assert(table_of(after) =~= table_of(before).insert(ip, (count, mark)));
}

/// A mark is recent until so much time has passed since, and one that lies ahead is.
pub proof fn law_recent_marks(mark: u64, now: u64, age: u64)
    requires
        age > 0,
    ensures
        is_recent(mark, now, age) <==> now < mark + age,
{
}

} // verus!
