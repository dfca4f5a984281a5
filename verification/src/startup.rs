//! What the service decides when it starts: its arguments, its directories, and the addresses
//! that it shows.
use crate::path::{
    is_absolute, is_absolute_path, join_path, law_joined_on_unix, lemma_unix, path_joined, System,
};
use crate::text::{lemma_text_order, opt_text, same_text, text_before, texts, to_chars};
use vstd::prelude::*;

verus! {

// ---------------------------------------------------------------------------
// Arguments
// ---------------------------------------------------------------------------
/// The first place of `word` in a list.
pub open spec fn first_place(list: Seq<Seq<char>>, word: Seq<char>) -> Option<int>
    decreases list.len(),
{
    if list.len() == 0 {
        None
    } else if first_place(list.drop_last(), word) is Some {
        first_place(list.drop_last(), word)
    } else if list.last() == word {
        Some(list.len() - 1)
    } else {
        None
    }
}

proof fn lemma_first_place(list: Seq<Seq<char>>, word: Seq<char>)
    ensures
        match first_place(list, word) {
            Some(i) => 0 <= i < list.len() && list[i] == word && forall|k: int|
                0 <= k < i ==> #[trigger] list[k] != word,
            None => forall|k: int| 0 <= k < list.len() ==> #[trigger] list[k] != word,
        },
    decreases list.len(),
{
    if list.len() > 0 {
        let init = list.drop_last();
        lemma_first_place(init, word);
        assert(forall|k: int| 0 <= k < init.len() ==> #[trigger] list[k] == init[k]);
    }
}

fn find_word(list: &Vec<String>, word: &str) -> (r: Option<usize>)
    ensures
        match r {
            Some(i) => first_place(texts(list@), word@) == Some(i as int),
            None => first_place(texts(list@), word@) is None,
        },
        r matches Some(i) ==> i < list@.len(),
{
    proof {
        lemma_first_place(texts(list@), word@);
    }
    let mut i: usize = 0;
    while i < list.len()
        invariant
            i <= list.len(),
            forall|k: int| 0 <= k < i ==> #[trigger] texts(list@)[k] != word@,
        decreases list.len() - i,
    {
        assert(texts(list@)[i as int] == list@[i as int]@);
        if same_text(list[i].as_str(), word) {
            proof {
                lemma_first_place(texts(list@), word@);
                assert(first_place(texts(list@), word@) == Some(i as int));
            }
            return Some(i);
        }
        i += 1;
    }
    None
}

/// The arguments of the service.
#[derive(Debug)]
pub struct Arguments {
    /// The service tests itself.
    pub build_test: bool,
    /// The port to listen on.
    pub port: Option<String>,
}

/// The word after the first `--port`, if there is one.
pub open spec fn port_argument(args: Seq<Seq<char>>) -> Option<Seq<char>> {
    match first_place(args, "--port"@) {
        Some(i) => if i + 1 < args.len() {
            Some(args[i + 1])
        } else {
            None
        },
        None => None,
    }
}

pub fn read_arguments(args: &Vec<String>) -> (r: Arguments)
    ensures
        r.build_test <==> texts(args@).contains("--build-test"@) || texts(args@).contains(
            "build-test"@,
        ),
        opt_text(r.port) == port_argument(texts(args@)),
{
    proof {
        lemma_first_place(texts(args@), "--build-test"@);
        lemma_first_place(texts(args@), "build-test"@);
    }
    let build_test = find_word(args, "--build-test").is_some() || find_word(
        args,
        "build-test",
    ).is_some();
    let port = match find_word(args, "--port") {
        Some(i) => if i < args.len() - 1 {
            assert(texts(args@)[i + 1] == args@[i + 1]@);
            Some(args[i + 1].clone())
        } else {
            None
        },
        None => None,
    };
    Arguments { build_test, port }
}

// ---------------------------------------------------------------------------
// Directories
// ---------------------------------------------------------------------------
/// A place that a setting names: below the directory of the program, unless it is absolute.
pub open spec fn resolved(system: System, exe_dir: Seq<char>, place: Seq<char>) -> Seq<char> {
    if is_absolute_path(system, place) {
        place
    } else {
        path_joined(system, exe_dir, place)
    }
}

pub fn resolve(system: System, exe_dir: &str, place: &str) -> (r: String)
    ensures
        r@ == resolved(system, exe_dir@, place@),
{
    if is_absolute(system, place) {
        place.to_owned()
    } else {
        join_path(system, exe_dir, place)
    }
}

/// Where the compilers and the libraries lie.
#[derive(Debug)]
pub struct ResourceDirs {
    pub tiecc_dir: String,
    pub stdlib_dir: String,
}

pub fn resource_dirs(system: System, exe_dir: &str) -> (r: ResourceDirs)
    ensures
        r.tiecc_dir@ == path_joined(system, path_joined(system, exe_dir@, ".tiec"@), "tiecc"@),
        r.stdlib_dir@ == path_joined(system, path_joined(system, exe_dir@, ".tiec"@), "stdlib"@),
{
    let root = join_path(system, exe_dir, ".tiec");
    ResourceDirs {
        tiecc_dir: join_path(system, root.as_str(), "tiecc"),
        stdlib_dir: join_path(system, root.as_str(), "stdlib"),
    }
}

// ---------------------------------------------------------------------------
// Addresses
// ---------------------------------------------------------------------------
/// An address of this machine.
#[derive(Debug)]
pub struct Interface {
    pub loopback: bool,
    /// The address, where it is one of version 4.
    pub v4: Option<String>,
}

/// The texts stand in order, and none stands twice.
pub open spec fn is_ordered(list: Seq<Seq<char>>) -> bool {
    forall|i: int, j: int|
        0 <= i < j < list.len() ==> text_before(#[trigger] list[i], #[trigger] list[j])
}

/// An address is shown: it is one of version 4, and not that of the machine to itself.
pub open spec fn is_shown(list: Seq<Interface>, address: Seq<char>) -> bool {
    exists|i: int|
        0 <= i < list.len() && !(#[trigger] list[i]).loopback && opt_text(list[i].v4) == Some(
            address,
        )
}

fn before(a: &str, b: &str) -> (r: bool)
    ensures
        r == text_before(a@, b@),
{
    let x = to_chars(a);
    let y = to_chars(b);
    let mut i: usize = 0;
    assert(x@.skip(0) =~= x@);
    assert(y@.skip(0) =~= y@);
    loop
        invariant
            x@ == a@,
            y@ == b@,
            i <= x.len(),
            i <= y.len(),
            text_before(a@, b@) == text_before(x@.skip(i as int), y@.skip(i as int)),
        decreases x.len() - i,
    {
        if i == y.len() {
            return false;
        }
        if i == x.len() {
            return true;
        }
        if x[i] != y[i] {
            return x[i] < y[i];
        }
        assert(x@.skip(i as int).drop_first() =~= x@.skip(i + 1));
        assert(y@.skip(i as int).drop_first() =~= y@.skip(i + 1));
        i += 1;
    }
}

/// Puts a text into an ordered list, unless it is there.
fn put_in_order(list: &mut Vec<String>, text: &String)
    requires
        is_ordered(texts(old(list)@)),
    ensures
        is_ordered(texts(final(list)@)),
        forall|s: Seq<char>| #[trigger]
            texts(final(list)@).contains(s) <==> texts(old(list)@).contains(s) || s == text@,
{
    let ghost was = texts(list@);
    let mut i: usize = 0;
    while i < list.len() && before(list[i].as_str(), text.as_str())
        invariant
            i <= list.len(),
            *list == *old(list),
            was == texts(list@),
            forall|k: int| 0 <= k < i ==> text_before(#[trigger] was[k], text@),
        decreases list.len() - i,
    {
        assert(was[i as int] == list@[i as int]@);
        i += 1;
    }
    if i < list.len() && same_text(list[i].as_str(), text.as_str()) {
        assert(was[i as int] == text@);
        assert(was.contains(text@));
        return;
    }
    list.insert(i, text.clone());
    let ghost now = texts(list@);
    proof {
        assert(now =~= was.insert(i as int, text@));
        if i < was.len() {
            lemma_text_order(was[i as int], text@, text@);
        }
        assert forall|a: int, b: int| 0 <= a < b < now.len() implies text_before(
            #[trigger] now[a],
            #[trigger] now[b],
        ) by {
            if a < i && b < i {
                assert(now[a] == was[a] && now[b] == was[b]);
            } else if a < i && b == i {
                assert(now[a] == was[a]);
            } else if a < i {
                assert(now[a] == was[a] && now[b] == was[b - 1]);
            } else if a == i {
                assert(now[b] == was[b - 1]);
                if b - 1 > i {
                    lemma_text_order(text@, was[i as int], was[b - 1]);
                }
            } else {
                assert(now[a] == was[a - 1] && now[b] == was[b - 1]);
            }
        }
        assert forall|s: Seq<char>| #[trigger] now.contains(s) <==> was.contains(s) || s == text@ by {
            if now.contains(s) {
                let k = choose|k: int| 0 <= k < now.len() && now[k] == s;
                if k < i {
                    assert(was[k] == s);
                } else if k > i {
                    assert(was[k - 1] == s);
                }
            }
            if was.contains(s) {
                let k = choose|k: int| 0 <= k < was.len() && was[k] == s;
                if k < i {
                    assert(now[k] == s);
                } else {
                    assert(now[k + 1] == s);
                }
            }
            assert(now[i as int] == text@);
        }
    }
}

/// The addresses of this machine that are shown, in order and each once.
pub fn get_local_ips(list: &Vec<Interface>) -> (r: Vec<String>)
    ensures
        is_ordered(texts(r@)),
        forall|s: Seq<char>| #[trigger] texts(r@).contains(s) <==> is_shown(list@, s),
{
    let mut r: Vec<String> = Vec::new();
    let mut i: usize = 0;
    assert(is_ordered(texts(r@)));
    while i < list.len()
        invariant
            i <= list.len(),
            is_ordered(texts(r@)),
            forall|s: Seq<char>| #[trigger]
                texts(r@).contains(s) <==> is_shown(list@.take(i as int), s),
        decreases list.len() - i,
    {
        let ghost had = texts(r@);
        let ghost seen = list@.take(i as int);
        let ghost next = list@.take(i + 1);
        if !list[i].loopback {
            if let Some(address) = &list[i].v4 {
                put_in_order(&mut r, address);
            }
        }
        proof {
            assert forall|s: Seq<char>| #[trigger] texts(r@).contains(s) <==> is_shown(next, s) by {
                assert(next[i as int] == list@[i as int]);
                assert(had.contains(s) <==> is_shown(seen, s));
                if is_shown(seen, s) {
                    let k = choose|k: int|
                        0 <= k < seen.len() && !(#[trigger] seen[k]).loopback && opt_text(
                            seen[k].v4,
                        ) == Some(s);
                    assert(next[k] == seen[k]);
                }
                if is_shown(next, s) {
                    let k = choose|k: int|
                        0 <= k < next.len() && !(#[trigger] next[k]).loopback && opt_text(
                            next[k].v4,
                        ) == Some(s);
                    if k < i {
                        assert(seen[k] == next[k]);
                    }
                }
            }
        }
        i += 1;
    }
    assert(list@.take(list@.len() as int) =~= list@);
    r
}

/// A list of texts in order, each once, is given by the texts that it holds.
pub proof fn law_order_fixes_the_list(a: Seq<Seq<char>>, b: Seq<Seq<char>>)
    requires
        is_ordered(a),
        is_ordered(b),
        forall|s: Seq<char>| #[trigger] a.contains(s) <==> b.contains(s),
    ensures
        a == b,
    decreases a.len(),
{
    if a.len() == 0 {
        if b.len() > 0 {
            assert(b.contains(b[0]));
            assert(a.contains(b[0]));
        }
        assert(a =~= b);
    } else {
        assert(a.contains(a[0]));
        assert(b.contains(a[0]));
        let k = choose|k: int| 0 <= k < b.len() && b[k] == a[0];
        assert(b.contains(b[0]));
        assert(a.contains(b[0]));
        let m = choose|m: int| 0 <= m < a.len() && a[m] == b[0];
        if k > 0 {
            assert(text_before(b[0], b[k]));
            if m > 0 {
                assert(text_before(a[0], a[m]));
            }
            lemma_text_order(a[0], b[0], a[0]);
        }
        assert(a[0] == b[0]);
        let (x, y) = (a.drop_first(), b.drop_first());
        assert forall|s: Seq<char>| #[trigger] x.contains(s) <==> y.contains(s) by {
            lemma_rest(a, b, s);
            lemma_rest(b, a, s);
        }
        assert(is_ordered(x)) by {
            assert forall|i: int, j: int| 0 <= i < j < x.len() implies text_before(
                #[trigger] x[i],
                #[trigger] x[j],
            ) by {
                assert(x[i] == a[i + 1] && x[j] == a[j + 1]);
            }
        }
        assert(is_ordered(y)) by {
            assert forall|i: int, j: int| 0 <= i < j < y.len() implies text_before(
                #[trigger] y[i],
                #[trigger] y[j],
            ) by {
                assert(y[i] == b[i + 1] && y[j] == b[j + 1]);
            }
        }
        law_order_fixes_the_list(x, y);
        assert(a =~= seq![a[0]] + x);
        assert(b =~= seq![b[0]] + y);
    }
}

proof fn lemma_rest(a: Seq<Seq<char>>, b: Seq<Seq<char>>, s: Seq<char>)
    requires
        a.len() > 0,
        b.len() > 0,
        a[0] == b[0],
        is_ordered(a),
        forall|t: Seq<char>| #[trigger] a.contains(t) <==> b.contains(t),
    ensures
        a.drop_first().contains(s) ==> b.drop_first().contains(s),
{
    let (x, y) = (a.drop_first(), b.drop_first());
    if x.contains(s) {
        let k = choose|k: int| 0 <= k < x.len() && x[k] == s;
        assert(a[k + 1] == s);
        assert(a.contains(s));
        assert(b.contains(s));
        let m = choose|m: int| 0 <= m < b.len() && b[m] == s;
        assert(text_before(a[0], a[k + 1]));
        lemma_text_order(a[0], s, s);
        assert(m > 0);
        assert(y[m - 1] == s);
    }
}

/// The word after the first `--port` is the port, whatever it is; without such a word, or with
/// `--port` only at the end, there is none.
pub proof fn law_port_follows_its_name(
    before: Seq<Seq<char>>,
    port: Seq<char>,
    after: Seq<Seq<char>>,
)
    requires
        !before.contains("--port"@),
    ensures
        port_argument(before.push("--port"@).push(port) + after) == Some(port),
        port_argument(before.push("--port"@)) is None,
        port_argument(before) is None,
{
    let word = "--port"@;
    let n = before.len() as int;
    let args = before.push(word).push(port) + after;
    let short = before.push(word);
    lemma_first_place(args, word);
    lemma_first_place(short, word);
    lemma_first_place(before, word);
    assert(args[n] == word && short[n] == word);
    match first_place(args, word) {
        Some(i) => {
            if i < n {
                assert(before[i] == word);
            }
        },
        None => {},
    }
    match first_place(short, word) {
        Some(i) => {
            if i < n {
                assert(before[i] == word);
            }
        },
        None => {},
    }
    assert(args[n + 1] == port);
}

/// On Unix a place that starts with a slash is taken as it stands, and any other lies below the
/// directory of the program.
pub proof fn law_places_on_unix(exe_dir: Seq<char>, place: Seq<char>)
    requires
        exe_dir.len() > 0,
        exe_dir.last() != '/',
    ensures
        place.len() > 0 && place[0] == '/' ==> resolved(System::Unix, exe_dir, place) == place,
        place.len() == 0 || place[0] != '/' ==> resolved(System::Unix, exe_dir, place) == exe_dir
            + seq!['/'] + place,
{
    lemma_unix(place);
    law_joined_on_unix(exe_dir, place);
}

/// Every address of version 4 that is not that of the machine to itself is shown, whatever it is,
/// and nothing else.
pub proof fn law_shown_addresses(list: Seq<Interface>, i: int, address: Seq<char>)
    ensures
        0 <= i < list.len() && !list[i].loopback && opt_text(list[i].v4) == Some(address)
            ==> is_shown(list, address),
        (forall|k: int|
            0 <= k < list.len() ==> (#[trigger] list[k]).loopback || opt_text(list[k].v4) != Some(
                address,
            )) ==> !is_shown(list, address),
{
}

} // verus!
