//! Paths as text, on Unix systems and on Windows.
pub mod slash;

use crate::text::{
    law_split_last, law_split_last_joins, opt_text, same_text, split, split_seq, texts, texts_push, to_chars, to_text,
};
use slash::{
    is_char, is_rooted, is_up, law_parent, leads, lemma_file_name_below, lemma_resolved, lemma_root, resolved,
    rooted, slash_above, slash_components, slash_file_name, slash_name, slash_parent,
    slash_pieces, split_name, stem_and_extension,
};
use vstd::prelude::*;
use vstd::string::*;

verus! {

/// Whose paths they are.
#[derive(Clone, Copy, Debug, PartialEq, Eq, Structural)]
pub enum System {
    Unix,
    Windows,
}

/// The system of a given name.
pub open spec fn system_named(os: Seq<char>) -> System {
    if os == "windows"@ {
        System::Windows
    } else {
        System::Unix
    }
}

/// The system of a given name: all but one have the paths of Unix.
pub fn system_of(os: &str) -> (r: System)
    ensures
        r == system_named(os@),
{
    if same_text(os, "windows") {
        System::Windows
    } else {
        System::Unix
    }
}

/// A character that stands between the steps of a path.
pub open spec fn is_separator(s: System, c: char) -> bool {
    c == '/' || (s is Windows && c == '\\')
}

/// A path of Windows that is taken as it stands: only backslashes separate its steps.
pub open spec fn is_verbatim(s: System, p: Seq<char>) -> bool {
    s is Windows && p.len() >= 4 && p[0] == '\\' && p[1] == '\\' && p[2] == '?' && p[3] == '\\'
}

/// A character of a path with a slash in place of a separator. A slash that does not separate
/// becomes a backslash.
pub open spec fn slashed_char(s: System, verbatim: bool, c: char) -> char {
    if verbatim {
        if c == '\\' {
            '/'
        } else if c == '/' {
            '\\'
        } else {
            c
        }
    } else if is_separator(s, c) {
        '/'
    } else {
        c
    }
}

/// The path with a slash in place of each separator.
pub open spec fn slashed(s: System, p: Seq<char>) -> Seq<char> {
    Seq::new(p.len(), |i: int| slashed_char(s, is_verbatim(s, p), p[i]))
}

/// A step of the path with slashes, as it stands in the path.
pub open spec fn restored(s: System, p: Seq<char>, step: Seq<char>) -> Seq<char> {
    if is_verbatim(s, p) {
        Seq::new(step.len(), |i: int| slashed_char(s, true, step[i]))
    } else {
        step
    }
}

/// Where the piece ends that starts at `from`.
pub open spec fn piece_end(q: Seq<char>, from: int) -> int
    decreases q.len() - from,
{
    if from >= q.len() {
        q.len() as int
    } else if q[from] == '/' {
        from
    } else {
        piece_end(q, from + 1)
    }
}

pub open spec fn is_letter(c: char) -> bool {
    'a' <= c <= 'z' || 'A' <= c <= 'Z'
}

/// How much of a path names its volume: on Windows a letter and a colon name a drive; two
/// separators, a server, a separator and a share name a share; two separators, a dot, a separator
/// and a name stand for a device. A path that is taken as it stands names a drive, a share after
/// `UNC`, or anything else up to the next separator.
pub open spec fn prefix_len(s: System, p: Seq<char>) -> int {
    let q = slashed(s, p);
    if s is Unix {
        0
    } else if is_verbatim(s, p) {
        if q.len() >= 8 && q[4] == 'U' && q[5] == 'N' && q[6] == 'C' && q[7] == '/' {
            let server = piece_end(q, 8);
            let share = piece_end(q, server + 1);
            if share > server + 1 {
                share
            } else {
                server
            }
        } else if is_drive(q, 4) && (q.len() == 6 || q[6] == '/') {
            6
        } else {
            piece_end(q, 4)
        }
    } else if q.len() >= 4 && q[0] == '/' && q[1] == '/' && q[2] == '.' && q[3] == '/' {
        piece_end(q, 4)
    } else if q.len() >= 2 && q[0] == '/' && q[1] == '/' {
        let server = piece_end(q, 2);
        let share = piece_end(q, server + 1);
        if server > 2 && share > server + 1 {
            share
        } else {
            0
        }
    } else if is_drive(q, 0) {
        2
    } else {
        0
    }
}

/// A letter and a colon stand at a place.
pub open spec fn is_drive(q: Seq<char>, at: int) -> bool {
    q.len() >= at + 2 && is_letter(q[at]) && q[at + 1] == ':'
}

/// What follows the volume, with slashes between the steps. All volumes but a drive stand for their
/// roots.
pub open spec fn path_tail(s: System, p: Seq<char>) -> Seq<char> {
    let rest = slashed(s, p).skip(prefix_len(s, p));
    if prefix_len(s, p) > 2 && rest.len() == 0 {
        seq!['/']
    } else {
        rest
    }
}

pub open spec fn upper_letter(c: char) -> char {
    if 'a' <= c <= 'z' {
        ((c as u32 - 32) as u32) as char
    } else {
        c
    }
}

/// The volume of a path. The letter of a drive may be small or a capital.
pub open spec fn path_volume(s: System, p: Seq<char>) -> Seq<char> {
    if prefix_len(s, p) == 2 {
        seq![upper_letter(p[0]), ':']
    } else {
        slashed(s, p).take(prefix_len(s, p))
    }
}

/// The components of a path: its volume, its root, its steps.
pub open spec fn path_components(s: System, p: Seq<char>) -> Seq<Seq<char>> {
    if prefix_len(s, p) > 0 {
        seq![path_volume(s, p)] + slash_components(path_tail(s, p))
    } else {
        slash_components(path_tail(s, p))
    }
}

/// A path that depends on no directory: it starts at a root, on Windows at that of a volume.
pub open spec fn is_absolute_path(s: System, p: Seq<char>) -> bool {
    is_rooted(path_tail(s, p)) && (s is Unix || prefix_len(s, p) > 0)
}

/// The path goes on without a separator: it is empty, ends with one, or is just a drive.
pub open spec fn is_open(s: System, p: Seq<char>) -> bool {
    p.len() == 0 || is_separator(s, p.last()) || (prefix_len(s, p) == 2 && p.len() == 2)
}

/// The pieces that are not empty.
pub open spec fn filled(pieces: Seq<Seq<char>>) -> Seq<Seq<char>>
    decreases pieces.len(),
{
    if pieces.len() == 0 {
        Seq::empty()
    } else if pieces.last().len() > 0 {
        filled(pieces.drop_last()).push(pieces.last())
    } else {
        filled(pieces.drop_last())
    }
}

/// The steps of a path that is taken as it stands.
pub open spec fn verbatim_steps(p: Seq<char>) -> Seq<Seq<char>> {
    let pieces = filled(split_seq(path_tail(System::Windows, p), '/'));
    Seq::new(pieces.len(), |i: int| restored(System::Windows, p, pieces[i]))
}

/// Where components lead from steps: a root leads to no step at all, `.` nowhere, and `..` one step
/// back where the last step is a name.
pub open spec fn walked(start: Seq<Seq<char>>, comps: Seq<Seq<char>>) -> Seq<Seq<char>>
    decreases comps.len(),
{
    if comps.len() == 0 {
        start
    } else {
        let before = walked(start, comps.drop_last());
        let c = comps.last();
        if c == seq!['/'] {
            Seq::empty()
        } else if c == seq!['.'] {
            before
        } else if c == seq!['.', '.'] {
            if before.len() > 0 && before.last() != seq!['.'] && before.last() != seq!['.', '.'] {
                before.drop_last()
            } else {
                before
            }
        } else {
            before.push(c)
        }
    }
}

/// The steps, each after a backslash; a backslash alone where there are none.
pub open spec fn strung(steps: Seq<Seq<char>>) -> Seq<char>
    decreases steps.len(),
{
    if steps.len() == 0 {
        seq!['\\']
    } else if steps.len() == 1 {
        seq!['\\'] + steps[0]
    } else {
        strung(steps.drop_last()) + seq!['\\'] + steps.last()
    }
}

/// `name` below a path that is taken as it stands: no `.` and no `..` of `name` is left.
pub open spec fn verbatim_joined(base: Seq<char>, name: Seq<char>) -> Seq<char> {
    base.take(prefix_len(System::Windows, base)) + strung(
        walked(verbatim_steps(base), path_components(System::Windows, name)),
    )
}

/// `name` below `base`. A `name` with a volume of its own, or an absolute one, stands for itself;
/// one that starts at a root without a volume starts at that of `base`.
pub open spec fn path_joined(s: System, base: Seq<char>, name: Seq<char>) -> Seq<char> {
    if prefix_len(s, name) > 0 || is_absolute_path(s, name) {
        name
    } else if is_verbatim(s, base) && name.len() > 0 {
        verbatim_joined(base, name)
    } else if is_rooted(path_tail(s, name)) {
        base.take(prefix_len(s, base)) + name
    } else if is_open(s, base) {
        base + name
    } else if s is Unix {
        base + seq!['/'] + name
    } else {
        base + seq!['\\'] + name
    }
}

/// `p` lies at or below `base`, component by component.
pub open spec fn path_starts_with(s: System, p: Seq<char>, base: Seq<char>) -> bool {
    path_components(s, base).is_prefix_of(path_components(s, p))
}

/// The components by which `p` goes on after those of `base`.
pub open spec fn path_rest(s: System, p: Seq<char>, base: Seq<char>) -> Seq<Seq<char>> {
    path_components(s, p).skip(path_components(s, base).len() as int)
}

/// `p` lies at or below `base`, on no volume of its own, and does not leave it on the way.
pub open spec fn path_stays_below(s: System, p: Seq<char>, base: Seq<char>) -> bool {
    &&& path_starts_with(s, p, base)
    &&& prefix_len(s, p) > 0 ==> prefix_len(s, base) > 0
    &&& resolved(path_rest(s, p, base)) is Some
}

/// The last component, where it is a name.
pub open spec fn path_file_name(s: System, p: Seq<char>) -> Option<Seq<char>> {
    match slash_file_name(path_tail(s, p)) {
        Some(name) => Some(restored(s, p, name)),
        None => None,
    }
}

pub open spec fn path_file_stem(s: System, p: Seq<char>) -> Option<Seq<char>> {
    match path_file_name(s, p) {
        Some(name) => Some(stem_and_extension(name).0),
        None => None,
    }
}

pub open spec fn path_extension(s: System, p: Seq<char>) -> Option<Seq<char>> {
    match path_file_name(s, p) {
        Some(name) => stem_and_extension(name).1,
        None => None,
    }
}

/// The path without its last component, where that is a step.
pub open spec fn path_parent(s: System, p: Seq<char>) -> Option<Seq<char>> {
    match slash_parent(path_tail(s, p)) {
        Some(q) => Some(p.take(prefix_len(s, p) + q.len())),
        None => None,
    }
}

proof fn lemma_piece_end(q: Seq<char>, from: int)
    requires
        0 <= from,
    ensures
        from <= q.len() ==> from <= piece_end(q, from) <= q.len(),
        from > q.len() ==> piece_end(q, from) == q.len(),
    decreases q.len() - from,
{
    if from < q.len() && q[from] != '/' {
        lemma_piece_end(q, from + 1);
    }
}

/// The volume is a part of the path.
pub proof fn lemma_prefix(s: System, p: Seq<char>)
    ensures
        0 <= prefix_len(s, p) <= p.len(),
        prefix_len(s, p) == 0 || prefix_len(s, p) == 2 || prefix_len(s, p) >= 4,
{
    let q = slashed(s, p);
    if q.len() >= 2 {
        lemma_piece_end(q, 2);
        lemma_piece_end(q, piece_end(q, 2) + 1);
    }
    if q.len() >= 4 {
        lemma_piece_end(q, 4);
    }
    if q.len() >= 8 {
        lemma_piece_end(q, 8);
        lemma_piece_end(q, piece_end(q, 8) + 1);
    }
}

fn separator(s: System, c: char) -> (r: bool)
    ensures
        r == is_separator(s, c),
{
    c == '/' || (c == '\\' && match s {
        System::Windows => true,
        System::Unix => false,
    })
}

fn verbatim(s: System, p: &Vec<char>) -> (r: bool)
    ensures
        r == is_verbatim(s, p@),
{
    p.len() >= 4 && p[0] == '\\' && p[1] == '\\' && p[2] == '?' && p[3] == '\\' && match s {
        System::Windows => true,
        System::Unix => false,
    }
}

fn slash_char(s: System, verbatim: bool, c: char) -> (r: char)
    ensures
        r == slashed_char(s, verbatim, c),
{
    if verbatim {
        if c == '\\' {
            '/'
        } else if c == '/' {
            '\\'
        } else {
            c
        }
    } else if separator(s, c) {
        '/'
    } else {
        c
    }
}

fn restore(s: System, p: &Vec<char>, step: String) -> (r: String)
    ensures
        r@ == restored(s, p@, step@),
{
    if !verbatim(s, p) {
        return step;
    }
    let chars = to_chars(step.as_str());
    let mut r = String::new();
    let mut i: usize = 0;
    while i < chars.len()
        invariant
            i <= chars.len(),
            chars@ == step@,
            is_verbatim(s, p@),
            r@ == restored(s, p@, step@).take(i as int),
        decreases chars.len() - i,
    {
        r.push(slash_char(s, true, chars[i]));
        assert(r@ =~= restored(s, p@, step@).take(i + 1));
        i += 1;
    }
    assert(r@ =~= restored(s, p@, step@));
    r
}

fn with_slashes(s: System, p: &Vec<char>) -> (r: Vec<char>)
    ensures
        r@ == slashed(s, p@),
{
    let as_it_stands = verbatim(s, p);
    let mut r: Vec<char> = Vec::new();
    let mut i: usize = 0;
    while i < p.len()
        invariant
            i <= p.len(),
            as_it_stands == is_verbatim(s, p@),
            r@.len() == i,
            forall|k: int| 0 <= k < i ==> #[trigger] r@[k] == slashed(s, p@)[k],
        decreases p.len() - i,
    {
        r.push(slash_char(s, as_it_stands, p[i]));
        i += 1;
    }
    assert(r@ =~= slashed(s, p@));
    r
}

fn end_of_piece(q: &Vec<char>, from: usize) -> (r: usize)
    requires
        from <= q.len(),
    ensures
        r == piece_end(q@, from as int),
        from <= r <= q.len(),
{
    let mut i = from;
    while i < q.len() && q[i] != '/'
        invariant
            from <= i <= q.len(),
            piece_end(q@, from as int) == piece_end(q@, i as int),
        decreases q.len() - i,
    {
        i += 1;
    }
    i
}

fn letter(c: char) -> (r: bool)
    ensures
        r == is_letter(c),
{
    ('a' <= c && c <= 'z') || ('A' <= c && c <= 'Z')
}

fn volume_end(s: System, p: &Vec<char>) -> (r: usize)
    ensures
        r == prefix_len(s, p@),
        r <= p.len(),
{
    match s {
        System::Unix => {
            return 0;
        },
        System::Windows => {},
    }
    let q = with_slashes(s, p);
    if verbatim(s, p) {
        if q.len() >= 8 && q[4] == 'U' && q[5] == 'N' && q[6] == 'C' && q[7] == '/' {
            let server = end_of_piece(&q, 8);
            if server == q.len() {
                proof {
                    lemma_piece_end(q@, server + 1);
                }
                return server;
            }
            let share = end_of_piece(&q, server + 1);
            if share > server + 1 {
                share
            } else {
                server
            }
        } else if q.len() >= 6 && letter(q[4]) && q[5] == ':' && (q.len() == 6 || q[6] == '/') {
            6
        } else {
            end_of_piece(&q, 4)
        }
    } else if q.len() >= 4 && q[0] == '/' && q[1] == '/' && q[2] == '.' && q[3] == '/' {
        end_of_piece(&q, 4)
    } else if q.len() >= 2 && q[0] == '/' && q[1] == '/' {
        let server = end_of_piece(&q, 2);
        if server == q.len() {
            return 0;
        }
        let share = end_of_piece(&q, server + 1);
        if server > 2 && share > server + 1 {
            share
        } else {
            0
        }
    } else if q.len() >= 2 && letter(q[0]) && q[1] == ':' {
        2
    } else {
        0
    }
}

fn tail_text(s: System, p: &Vec<char>) -> (r: String)
    ensures
        r@ == path_tail(s, p@),
{
    let k = volume_end(s, p);
    let q = with_slashes(s, p);
    if k > 2 && k == q.len() {
        let mut root = String::new();
        root.push('/');
        assert(root@ =~= seq!['/']);
        root
    } else {
        let r = to_text(&q, k, q.len());
        assert(r@ =~= slashed(s, p@).skip(k as int));
        r
    }
}

fn volume_text(s: System, p: &Vec<char>) -> (r: String)
    ensures
        r@ == path_volume(s, p@),
{
    let k = volume_end(s, p);
    if k == 2 {
        let c = p[0];
        let mut r = String::new();
        if 'a' <= c && c <= 'z' {
            r.push(((c as u8) - 32) as char);
        } else {
            r.push(c);
        }
        r.push(':');
        assert(r@ =~= path_volume(s, p@));
        r
    } else {
        let q = with_slashes(s, p);
        let r = to_text(&q, 0, k);
        assert(r@ =~= slashed(s, p@).take(k as int));
        r
    }
}

pub fn components(s: System, p: &str) -> (r: Vec<String>)
    ensures
        texts(r@) == path_components(s, p@),
{
    let chars = to_chars(p);
    let mut rest = slash_pieces(tail_text(s, &chars).as_str());
    if volume_end(s, &chars) > 0 {
        let mut r = vec![volume_text(s, &chars)];
        let ghost tail = texts(rest@);
        r.append(&mut rest);
        assert(texts(r@) =~= seq![path_volume(s, p@)] + tail);
        r
    } else {
        rest
    }
}

pub fn is_absolute(s: System, p: &str) -> (r: bool)
    ensures
        r == is_absolute_path(s, p@),
{
    let chars = to_chars(p);
    rooted(tail_text(s, &chars).as_str()) && match s {
        System::Unix => true,
        System::Windows => volume_end(s, &chars) > 0,
    }
}

fn steps_of(p: &Vec<char>) -> (r: Vec<String>)
    ensures
        texts(r@) == verbatim_steps(p@),
{
    broadcast use texts_push;

    let pieces = split(tail_text(System::Windows, p).as_str(), '/');
    let ghost all = texts(pieces@);
    let mut r: Vec<String> = Vec::new();
    let mut i: usize = 0;
    assert(all.take(0) =~= Seq::empty());
    while i < pieces.len()
        invariant
            i <= pieces.len(),
            all == texts(pieces@),
            r@.len() == filled(all.take(i as int)).len(),
            forall|k: int|
                0 <= k < r@.len() ==> (#[trigger] r@[k])@ == restored(
                    System::Windows,
                    p@,
                    filled(all.take(i as int))[k],
                ),
        decreases pieces.len() - i,
    {
        assert(all.take(i + 1).drop_last() =~= all.take(i as int));
        assert(all.take(i + 1).last() == pieces@[i as int]@);
        if !pieces[i].as_str().is_empty() {
            r.push(restore(System::Windows, p, pieces[i].clone()));
        }
        i += 1;
    }
    assert(all.take(all.len() as int) =~= all);
    assert(texts(r@) =~= verbatim_steps(p@));
    r
}

fn join_verbatim(base: &Vec<char>, name: &str) -> (r: String)
    ensures
        r@ == verbatim_joined(base@, name@),
{
    broadcast use texts_push;

    let mut steps = steps_of(base);
    let comps = components(System::Windows, name);
    let ghost start = texts(steps@);
    let ghost all = texts(comps@);
    let mut i: usize = 0;
    assert(all.take(0) =~= Seq::empty());
    while i < comps.len()
        invariant
            i <= comps.len(),
            all == texts(comps@),
            texts(steps@) == walked(start, all.take(i as int)),
        decreases comps.len() - i,
    {
        assert(all.take(i + 1).drop_last() =~= all.take(i as int));
        assert(all.take(i + 1).last() == comps@[i as int]@);
        let c = comps[i].as_str();
        if is_char(c, '/') {
            steps = Vec::new();
            assert(texts(steps@) =~= Seq::empty());
        } else if is_char(c, '.') {
        } else if is_up(c) {
            if steps.len() > 0 {
                let last = steps[steps.len() - 1].as_str();
                assert(last@ == texts(steps@).last());
                if !is_char(last, '.') && !is_up(last) {
                    let ghost before = texts(steps@);
                    steps.pop();
                    assert(texts(steps@) =~= before.drop_last());
                }
            } else {
                assert(texts(steps@).len() == 0);
            }
        } else {
            steps.push(comps[i].clone());
        }
        i += 1;
    }
    assert(all.take(all.len() as int) =~= all);
    let mut r = to_text(base, 0, volume_end(System::Windows, base));
    let ghost volume = r@;
    let ghost there = texts(steps@);
    assert(volume =~= base@.take(prefix_len(System::Windows, base@)));
    if steps.len() == 0 {
        assert(there.len() == 0);
        r.push('\\');
        assert(r@ =~= volume + strung(there));
        return r;
    }
    let mut j: usize = 0;
    while j < steps.len()
        invariant
            j <= steps.len(),
            there == texts(steps@),
            steps.len() > 0,
            r@ == volume + (if j == 0 {
                Seq::<char>::empty()
            } else {
                strung(there.take(j as int))
            }),
        decreases steps.len() - j,
    {
        let ghost before = r@;
        assert(there.take(j + 1).drop_last() =~= there.take(j as int));
        assert(there.take(j + 1).last() == steps@[j as int]@);
        r.push('\\');
        r.append(steps[j].as_str());
        assert(r@ =~= before + (seq!['\\'] + steps@[j as int]@));
        assert(r@ =~= volume + strung(there.take(j + 1)));
        j += 1;
    }
    assert(there.take(there.len() as int) =~= there);
    r
}

pub fn join_path(s: System, base: &str, name: &str) -> (r: String)
    ensures
        r@ == path_joined(s, base@, name@),
{
    let start = to_chars(base);
    let chars = to_chars(name);
    if volume_end(s, &chars) > 0 || is_absolute(s, name) {
        return name.to_owned();
    }
    if chars.len() > 0 && verbatim(s, &start) {
        return join_verbatim(&start, name);
    }
    if rooted(tail_text(s, &chars).as_str()) {
        let k = volume_end(s, &start);
        let mut r = to_text(&start, 0, k);
        r.append(name);
        assert(r@ =~= base@.take(k as int) + name@);
        return r;
    }
    let mut r = base.to_owned();
    let n = start.len();
    if !(n == 0 || separator(s, start[n - 1]) || (n == 2 && volume_end(s, &start) == 2)) {
        match s {
            System::Unix => {
                r.push('/');
                assert(r@ =~= base@ + seq!['/']);
            },
            System::Windows => {
                r.push('\\');
                assert(r@ =~= base@ + seq!['\\']);
            },
        }
    }
    r.append(name);
    r
}

/// Whether `p` lies at or below `base`, on no volume of its own, and does not leave it on the way.
pub fn stays_below(s: System, p: &str, base: &str) -> (r: bool)
    ensures
        r == path_stays_below(s, p@, base@),
{
    let start = components(s, base);
    let all = components(s, p);
    if !leads(&start, &all) {
        return false;
    }
    if volume_end(s, &to_chars(p)) > 0 && volume_end(s, &to_chars(base)) == 0 {
        return false;
    }
    let ghost rest = path_rest(s, p@, base@);
    let from = start.len();
    let mut depth: usize = 0;
    let mut i: usize = from;
    assert(rest.take(0) =~= Seq::<Seq<char>>::empty());
    assert(texts(all@).len() == all@.len());
    assert(texts(start@).len() == from);
    while i < all.len()
        invariant
            from <= i <= all.len(),
            rest == texts(all@).skip(from as int),
            rest == path_rest(s, p@, base@),
            path_starts_with(s, p@, base@),
            prefix_len(s, p@) > 0 ==> prefix_len(s, base@) > 0,
            rest.len() == all.len() - from,
            depth <= i - from,
            resolved(rest.take(i - from)) matches Some(d) && d.len() == depth,
        decreases all.len() - i,
    {
        let ghost n = i - from;
        assert(rest.take(n + 1).drop_last() =~= rest.take(n));
        assert(rest.take(n + 1).last() == all@[i as int]@);
        let step = all[i].as_str();
        if !is_char(step, '.') {
            if is_char(step, '/') || (is_up(step) && depth == 0) {
                proof {
                    if resolved(rest) is Some {
                        lemma_resolved(rest);
                        assert(resolved(rest.take(n + 1)) is Some);
                    }
                }
                return false;
            }
            if is_up(step) {
                depth -= 1;
            } else {
                depth += 1;
            }
        }
        i += 1;
    }
    assert(rest.take(rest.len() as int) =~= rest);
    true
}

pub fn file_name(s: System, p: &str) -> (r: Option<String>)
    ensures
        opt_text(r) == path_file_name(s, p@),
{
    let chars = to_chars(p);
    match slash_name(tail_text(s, &chars).as_str()) {
        Some(name) => Some(restore(s, &chars, name)),
        None => None,
    }
}

pub fn file_stem(s: System, p: &str) -> (r: Option<String>)
    ensures
        opt_text(r) == path_file_stem(s, p@),
{
    match file_name(s, p) {
        Some(name) => Some(split_name(name).0),
        None => None,
    }
}

pub fn extension(s: System, p: &str) -> (r: Option<String>)
    ensures
        opt_text(r) == path_extension(s, p@),
{
    match file_name(s, p) {
        Some(name) => split_name(name).1,
        None => None,
    }
}

pub fn parent(s: System, p: &str) -> (r: Option<String>)
    ensures
        opt_text(r) == path_parent(s, p@),
{
    let chars = to_chars(p);
    let k = volume_end(s, &chars);
    let tail = tail_text(s, &chars);
    match slash_above(tail.as_str()) {
        Some(q) => {
            let n = to_chars(q.as_str()).len();
            proof {
                if k > 2 && k == p@.len() {
                    lemma_root();
                }
            }
            let r = to_text(&chars, 0, k + n);
            assert(r@ =~= p@.take(k + n));
            Some(r)
        },
        None => None,
    }
}

/// A file with a name, after a separator below a directory whose volume it shares, has that name.
pub proof fn law_file_name(s: System, dir: Seq<char>, sep: char, name: Seq<char>)
    requires
        is_separator(s, sep),
        name.len() > 0,
        forall|i: int| 0 <= i < name.len() ==> !is_separator(s, #[trigger] name[i]),
        name != seq!['.'],
        name != seq!['.', '.'],
        prefix_len(s, dir.push(sep) + name) <= dir.len(),
        !is_verbatim(s, dir.push(sep) + name),
    ensures
        path_file_name(s, dir.push(sep) + name) == Some(name),
{
    let p = dir.push(sep) + name;
    lemma_prefix(s, p);
    let k = prefix_len(s, p);
    let whole = slashed(s, p);
    let head = whole.take(dir.len() as int).skip(k);
    assert(whole.skip(k) =~= head + seq!['/'] + name);
    assert(path_tail(s, p) == head + seq!['/'] + name);
    if name.contains('/') {
        let i = choose|i: int| 0 <= i < name.len() && name[i] == '/';
        assert(is_separator(s, name[i]));
    }
    lemma_file_name_below(head, name);
}

/// A file name that goes on after its stem with a dot and an extension has both.
pub proof fn law_extension(
    s: System,
    dir: Seq<char>,
    sep: char,
    stem: Seq<char>,
    extension: Seq<char>,
)
    requires
        is_separator(s, sep),
        stem.len() > 0,
        extension.len() > 0,
        !extension.contains('.'),
        forall|i: int| 0 <= i < stem.len() ==> !is_separator(s, #[trigger] stem[i]),
        forall|i: int| 0 <= i < extension.len() ==> !is_separator(s, #[trigger] extension[i]),
        prefix_len(s, dir.push(sep) + (stem.push('.') + extension)) <= dir.len(),
        !is_verbatim(s, dir.push(sep) + (stem.push('.') + extension)),
    ensures
        path_file_stem(s, dir.push(sep) + (stem.push('.') + extension)) == Some(stem),
        path_extension(s, dir.push(sep) + (stem.push('.') + extension)) == Some(extension),
{
    let name = stem.push('.') + extension;
    assert forall|i: int| 0 <= i < name.len() implies !is_separator(s, #[trigger] name[i]) by {
        if i < stem.len() {
            assert(name[i] == stem[i]);
        } else if i > stem.len() {
            assert(name[i] == extension[i - stem.len() - 1]);
        }
    }
    assert(name.len() >= 3);
    law_file_name(s, dir, sep, name);
    law_split_last(stem, '.', extension);
}

/// A path with an extension ends in a file name that is put together from the stem, a dot and the
/// extension.
pub proof fn law_extension_ends_the_name(s: System, p: Seq<char>)
    ensures
        path_extension(s, p) is Some ==> path_file_name(s, p) == Some(
            path_file_stem(s, p)->0.push('.') + path_extension(s, p)->0,
        ) && path_file_stem(s, p)->0.len() > 0 && !path_extension(s, p)->0.contains('.'),
{
    if path_file_name(s, p) is Some {
        law_split_last_joins(path_file_name(s, p)->0, '.');
    }
}

/// A file with a name, below a directory whose volume it shares, has that name.
pub proof fn lemma_name_below(s: System, dir: Seq<char>, name: Seq<char>)
    requires
        name.len() > 0,
        forall|i: int| 0 <= i < name.len() ==> !is_separator(s, #[trigger] name[i]),
        name != seq!['.'],
        name != seq!['.', '.'],
        prefix_len(s, dir + seq!['/'] + name) <= dir.len(),
        !is_verbatim(s, dir + seq!['/'] + name),
    ensures
        path_file_name(s, dir + seq!['/'] + name) == Some(name),
{
    let p = dir + seq!['/'] + name;
    lemma_prefix(s, p);
    let k = prefix_len(s, p);
    let head = slashed(s, dir).skip(k);
    assert(slashed(s, p).skip(k) =~= head + seq!['/'] + name);
    assert(path_tail(s, p) == head + seq!['/'] + name);
    if name.contains('/') {
        let i = choose|i: int| 0 <= i < name.len() && name[i] == '/';
        assert(is_separator(s, name[i]));
    }
    lemma_file_name_below(head, name);
}

/// On Unix a path is its steps between slashes, as it stands.
pub proof fn lemma_unix(p: Seq<char>)
    ensures
        prefix_len(System::Unix, p) == 0,
        path_tail(System::Unix, p) == p,
        path_components(System::Unix, p) == slash_components(p),
{
    assert(slashed(System::Unix, p) =~= p);
    assert(slashed(System::Unix, p).skip(0) =~= p);
}

/// On Unix a place that does not start with a slash lies below a directory, after a slash where
/// the directory does not end with one; a place that starts with a slash stands for itself.
pub proof fn law_joined_on_unix(base: Seq<char>, name: Seq<char>)
    ensures
        name.len() > 0 && name[0] == '/' ==> path_joined(System::Unix, base, name) == name,
        (name.len() == 0 || name[0] != '/') && base.len() > 0 && base.last() != '/' ==> path_joined(
            System::Unix,
            base,
            name,
        ) == base + seq!['/'] + name,
        (name.len() == 0 || name[0] != '/') && base.len() > 0 && base.last() == '/' ==> path_joined(
            System::Unix,
            base,
            name,
        ) == base + name,
        (name.len() == 0 || name[0] != '/') && base.len() == 0 ==> path_joined(
            System::Unix,
            base,
            name,
        ) == name,
{
    lemma_unix(name);
    lemma_unix(base);
    if base.len() == 0 {
        assert(base + name =~= name);
    }
}

/// On Unix the directory above a file is the directory that the file was put into.
pub proof fn law_parent_on_unix(up: Seq<char>, base: Seq<char>, name: Seq<char>)
    requires
        up.len() > 0,
        base.len() > 0,
        !base.contains('/'),
        base != seq!['.'],
        name.len() > 0,
        !name.contains('/'),
        name != seq!['.'],
    ensures
        path_parent(System::Unix, (up.push('/') + base).push('/') + name) == Some(
            up.push('/') + base,
        ),
{
    let dir = up.push('/') + base;
    let p = dir.push('/') + name;
    lemma_unix(p);
    law_parent(up, base, name);
    assert(p.take(dir.len() as int) =~= dir);
}

/// On Windows a name that starts neither with a separator nor with a drive lies below a directory
/// of a drive after a backslash, and one that starts with a drive and a separator stands for
/// itself.
pub proof fn law_joined_on_windows(
    drive: char,
    rest: Seq<char>,
    name: Seq<char>,
    other: char,
    sep: char,
    more: Seq<char>,
)
    requires
        is_letter(drive),
        is_letter(other),
        is_separator(System::Windows, sep),
        rest.len() > 0,
        !is_separator(System::Windows, rest.last()),
        name.len() > 0,
        !is_separator(System::Windows, name[0]),
        name.len() < 2 || name[1] != ':',
    ensures
        ({
            let base = seq![drive, ':'] + rest;
            let absolute = seq![other, ':', sep] + more;
            &&& path_joined(System::Windows, base, name) == base + seq!['\\'] + name
            &&& path_joined(System::Windows, base, absolute) == absolute
        }),
{
    let base = seq![drive, ':'] + rest;
    let absolute = seq![other, ':', sep] + more;
    let w = System::Windows;
    assert(base[0] == drive && base[1] == ':');
    assert(absolute[0] == other && absolute[1] == ':' && absolute[2] == sep);
    assert(slashed(w, name)[0] == name[0]);
    assert(slashed(w, name).skip(0) =~= slashed(w, name));
    assert(slashed(w, absolute)[0] == other);
    assert(slashed(w, base)[0] == drive);
    assert(base.last() == rest.last());
    assert(prefix_len(w, name) == 0);
    assert(prefix_len(w, absolute) == 2);
}

} // verus!
