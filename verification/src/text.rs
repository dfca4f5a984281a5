//! Text as sequences of characters: splitting, trimming, searching, joining,
//! and decimal numbers.
use vstd::prelude::*;
use vstd::string::*;

verus! {

// ---------------------------------------------------------------------------
// Characters and strings
// ---------------------------------------------------------------------------
/// `String::push` appends the character to the end of the string.
pub assume_specification[ String::push ](s: &mut String, c: char)
    ensures
        final(s)@ == old(s)@.push(c),
;

/// The contents of a list of strings.
pub open spec fn texts(v: Seq<String>) -> Seq<Seq<char>> {
    Seq::new(v.len(), |i: int| v[i]@)
}

/// Adding a string to a list adds its contents to the list's contents.
pub broadcast proof fn texts_push(v: Seq<String>, s: String)
    ensures
        #[trigger] texts(v.push(s)) == texts(v).push(s@),
{
    assert(texts(v.push(s)) =~= texts(v).push(s@));
}

/// The contents of an optional string.
pub open spec fn opt_text(v: Option<String>) -> Option<Seq<char>> {
    match v {
        Some(s) => Some(s@),
        None => None,
    }
}

/// The contents of an optional string slice.
pub open spec fn opt_str(v: Option<&str>) -> Option<Seq<char>> {
    match v {
        Some(s) => Some(s@),
        None => None,
    }
}

/// `a` comes before `b` in the order of texts that goes by their first different characters.
pub open spec fn text_before(a: Seq<char>, b: Seq<char>) -> bool
    decreases a.len(),
{
    if b.len() == 0 {
        false
    } else if a.len() == 0 {
        true
    } else if a[0] != b[0] {
        a[0] < b[0]
    } else {
        text_before(a.drop_first(), b.drop_first())
    }
}

/// The order of texts is total.
pub proof fn lemma_text_order(a: Seq<char>, b: Seq<char>, c: Seq<char>)
    ensures
        !text_before(a, a),
        text_before(a, b) ==> !text_before(b, a),
        a == b || text_before(a, b) || text_before(b, a),
        text_before(a, b) && text_before(b, c) ==> text_before(a, c),
    decreases a.len(),
{
    if a.len() > 0 {
        let (x, y, z) = (a.drop_first(), b.drop_first(), c.drop_first());
        lemma_text_order(x, y, z);
        if b.len() > 0 && a[0] == b[0] && x == y {
            assert(a =~= seq![a[0]] + x);
            assert(b =~= seq![b[0]] + y);
        }
    } else if b.len() == 0 {
        assert(a =~= b);
    }
}

pub fn to_chars(s: &str) -> (r: Vec<char>)
    ensures
        r@ == s@,
{
    let mut r: Vec<char> = Vec::new();
    for c in it: s.chars()
        invariant
            it.seq() == s@,
            r@ == it.seq().take(it.index()),
    {
        r.push(c);
    }
    r
}

/// The string made of the characters `chars[from..to]`.
pub fn to_text(chars: &Vec<char>, from: usize, to: usize) -> (r: String)
    requires
        from <= to <= chars@.len(),
    ensures
        r@ == chars@.subrange(from as int, to as int),
{
    let mut r = String::new();
    let mut i: usize = from;
    while i < to
        invariant
            from <= i <= to <= chars@.len(),
            r@ == chars@.subrange(from as int, i as int),
        decreases to - i,
    {
        r.push(chars[i]);
        assert(chars@.subrange(from as int, i + 1) == chars@.subrange(from as int, i as int).push(
            chars@[i as int],
        ));
        i += 1;
    }
    r
}

fn same_chars(a: &Vec<char>, b: &Vec<char>) -> (r: bool)
    ensures
        r == (a@ == b@),
{
    if a.len() != b.len() {
        return false;
    }
    let mut i: usize = 0;
    while i < a.len()
        invariant
            i <= a.len(),
            a.len() == b.len(),
            forall|k: int| 0 <= k < i ==> a@[k] == b@[k],
        decreases a.len() - i,
    {
        if a[i] != b[i] {
            return false;
        }
        i += 1;
    }
    assert(a@ =~= b@);
    true
}

pub fn same_text(a: &str, b: &str) -> (r: bool)
    ensures
        r == (a@ == b@),
{
    same_chars(&to_chars(a), &to_chars(b))
}

pub fn copy_texts(list: &Vec<String>) -> (r: Vec<String>)
    ensures
        texts(r@) == texts(list@),
{
    broadcast use texts_push;

    let mut r: Vec<String> = Vec::new();
    assert(texts(r@) =~= texts(list@).take(0));
    let mut i: usize = 0;
    while i < list.len()
        invariant
            i <= list.len(),
            texts(r@) == texts(list@).take(i as int),
        decreases list.len() - i,
    {
        r.push(list[i].clone());
        assert(texts(list@).take(i + 1) =~= texts(list@).take(i as int).push(list@[i as int]@));
        i += 1;
    }
    assert(texts(list@).take(list@.len() as int) =~= texts(list@));
    r
}

pub fn copy_opt(v: &Option<String>) -> (r: Option<String>)
    ensures
        opt_text(r) == opt_text(*v),
{
    match v {
        Some(s) => Some(s.clone()),
        None => None,
    }
}

// ---------------------------------------------------------------------------
// Prefixes, suffixes and occurrences
// ---------------------------------------------------------------------------
/// `needle` stands in `hay` at position `at`.
pub open spec fn occurs_at(needle: Seq<char>, hay: Seq<char>, at: int) -> bool {
    0 <= at <= hay.len() - needle.len() && hay.subrange(at, at + needle.len()) == needle
}

/// `needle` stands somewhere in `hay`.
pub open spec fn occurs(needle: Seq<char>, hay: Seq<char>) -> bool {
    exists|at: int| occurs_at(needle, hay, at)
}

/// A text that is put between two others stands in what comes out, and a text that stands in
/// another parts it in two.
pub proof fn law_occurs(needle: Seq<char>, hay: Seq<char>)
    ensures
        occurs(needle, hay) <==> exists|before: Seq<char>, after: Seq<char>|
            hay == #[trigger] joined(before, needle, after),
{
    if occurs(needle, hay) {
        let at = choose|at: int| occurs_at(needle, hay, at);
        let before = hay.take(at);
        let after = hay.skip(at + needle.len());
        assert(hay =~= joined(before, needle, after)) by {
            assert forall|i: int| 0 <= i < hay.len() implies hay[i] == joined(
                before,
                needle,
                after,
            )[i] by {
                if at <= i < at + needle.len() {
                    assert(hay.subrange(at, at + needle.len())[i - at] == needle[i - at]);
                }
            }
        }
    }
    if exists|before: Seq<char>, after: Seq<char>| hay == #[trigger] joined(before, needle, after) {
        let (before, after) = choose|before: Seq<char>, after: Seq<char>|
            hay == #[trigger] joined(before, needle, after);
        let at = before.len() as int;
        assert(hay.subrange(at, at + needle.len()) =~= needle);
        assert(occurs_at(needle, hay, at));
    }
}

/// A text with what comes before it and what comes after it.
pub open spec fn joined(before: Seq<char>, middle: Seq<char>, after: Seq<char>) -> Seq<char> {
    before + middle + after
}

fn stands_at(needle: &Vec<char>, hay: &Vec<char>, at: usize) -> (r: bool)
    ensures
        r == occurs_at(needle@, hay@, at as int),
{
    if at > hay.len() || hay.len() - at < needle.len() {
        return false;
    }
    let mut i: usize = 0;
    while i < needle.len()
        invariant
            i <= needle.len(),
            at + needle.len() <= hay.len(),
            forall|k: int| 0 <= k < i ==> hay@[at + k] == needle@[k],
        decreases needle.len() - i,
    {
        if hay[at + i] != needle[i] {
            assert(hay@.subrange(at as int, at + needle@.len())[i as int] != needle@[i as int]);
            return false;
        }
        i += 1;
    }
    assert(hay@.subrange(at as int, at + needle@.len()) =~= needle@);
    true
}

pub fn starts_with(s: &str, prefix: &str) -> (r: bool)
    ensures
        r == prefix@.is_prefix_of(s@),
{
    let hay = to_chars(s);
    let needle = to_chars(prefix);
    stands_at(&needle, &hay, 0)
}

pub fn ends_with(s: &str, suffix: &str) -> (r: bool)
    ensures
        r == suffix@.is_suffix_of(s@),
{
    let hay = to_chars(s);
    let needle = to_chars(suffix);
    if needle.len() > hay.len() {
        return false;
    }
    stands_at(&needle, &hay, hay.len() - needle.len())
}

pub fn contains(s: &str, needle: &str) -> (r: bool)
    ensures
        r == occurs(needle@, s@),
{
    let hay = to_chars(s);
    let wanted = to_chars(needle);
    if wanted.len() > hay.len() {
        return false;
    }
    let mut at: usize = 0;
    while at <= hay.len() - wanted.len()
        invariant
            wanted@ == needle@,
            hay@ == s@,
            wanted.len() <= hay.len(),
            at <= hay.len() - wanted.len() + 1,
            forall|k: int| 0 <= k < at ==> !occurs_at(needle@, s@, k),
        decreases hay.len() - at,
    {
        if stands_at(&wanted, &hay, at) {
            return true;
        }
        if at == hay.len() - wanted.len() {
            return false;
        }
        at += 1;
    }
    false
}

/// An ASCII capital letter becomes its small letter; other characters stay.
pub open spec fn ascii_lower(c: char) -> char {
    if 'A' <= c <= 'Z' {
        ((c as u32 + 32) as u32) as char
    } else {
        c
    }
}

pub open spec fn ascii_lower_all(s: Seq<char>) -> Seq<char> {
    Seq::new(s.len(), |i: int| ascii_lower(s[i]))
}

pub fn lower_char(c: char) -> (r: char)
    ensures
        r == ascii_lower(c),
{
    if 'A' <= c && c <= 'Z' {
        ((c as u8) + 32) as char
    } else {
        c
    }
}

/// Whether two texts are equal when ASCII capitals and small letters count as the same.
pub fn same_ignoring_case(a: &str, b: &str) -> (r: bool)
    ensures
        r == (ascii_lower_all(a@) == ascii_lower_all(b@)),
{
    let x = to_chars(a);
    let y = to_chars(b);
    if x.len() != y.len() {
        assert(ascii_lower_all(a@).len() != ascii_lower_all(b@).len());
        return false;
    }
    let mut i: usize = 0;
    while i < x.len()
        invariant
            x@ == a@,
            y@ == b@,
            x.len() == y.len(),
            i <= x.len(),
            forall|k: int| 0 <= k < i ==> ascii_lower(a@[k]) == ascii_lower(b@[k]),
        decreases x.len() - i,
    {
        if lower_char(x[i]) != lower_char(y[i]) {
            assert(ascii_lower_all(a@)[i as int] != ascii_lower_all(b@)[i as int]);
            return false;
        }
        i += 1;
    }
    assert(ascii_lower_all(a@) =~= ascii_lower_all(b@));
    true
}

/// Whether `s` ends in `suffix` when ASCII capitals and small letters count as the same.
pub fn ends_with_ignoring_case(s: &str, suffix: &str) -> (r: bool)
    ensures
        r == ascii_lower_all(suffix@).is_suffix_of(ascii_lower_all(s@)),
{
    let hay = to_chars(s);
    let n = to_chars(suffix).len();
    if n > hay.len() {
        return false;
    }
    let tail = to_text(&hay, hay.len() - n, hay.len());
    proof {
        let cut = s@.len() - n;
        assert(ascii_lower_all(tail@) =~= ascii_lower_all(s@).subrange(cut, s@.len() as int));
    }
    same_ignoring_case(tail.as_str(), suffix)
}

// ---------------------------------------------------------------------------
// White space and trimming
// ---------------------------------------------------------------------------
/// The characters with the Unicode property `White_Space`.
pub open spec fn is_white(c: char) -> bool {
    let u = c as u32;
    ||| 9 <= u <= 13
    ||| u == 32
    ||| u == 0x85
    ||| u == 0xA0
    ||| u == 0x1680
    ||| 0x2000 <= u <= 0x200A
    ||| u == 0x2028
    ||| u == 0x2029
    ||| u == 0x202F
    ||| u == 0x205F
    ||| u == 0x3000
}

fn white(c: char) -> (r: bool)
    ensures
        r == is_white(c),
{
    let u: u32 = c as u32;
    (9 <= u && u <= 13) || u == 32 || u == 0x85 || u == 0xA0 || u == 0x1680 || (0x2000 <= u && u
        <= 0x200A) || u == 0x2028 || u == 0x2029 || u == 0x202F || u == 0x205F || u == 0x3000
}

/// `s` without the white space at its start.
pub open spec fn trim_start(s: Seq<char>) -> Seq<char>
    decreases s.len(),
{
    if s.len() > 0 && is_white(s[0]) {
        trim_start(s.drop_first())
    } else {
        s
    }
}

/// `s` without the white space at its end.
pub open spec fn trim_end(s: Seq<char>) -> Seq<char>
    decreases s.len(),
{
    if s.len() > 0 && is_white(s.last()) {
        trim_end(s.drop_last())
    } else {
        s
    }
}

/// `s` without the white space at its two ends.
pub open spec fn trimmed(s: Seq<char>) -> Seq<char> {
    trim_end(trim_start(s))
}

pub fn trim(s: &str) -> (r: String)
    ensures
        r@ == trimmed(s@),
{
    let chars = to_chars(s);
    let mut from: usize = 0;
    assert(s@.skip(0) =~= s@);
    while from < chars.len() && white(chars[from])
        invariant
            chars@ == s@,
            from <= chars.len(),
            trim_start(s@) == trim_start(s@.skip(from as int)),
        decreases chars.len() - from,
    {
        assert(s@.skip(from as int).drop_first() =~= s@.skip(from + 1));
        from += 1;
    }
    let ghost head = s@.skip(from as int);
    let mut to: usize = chars.len();
    assert(head =~= s@.subrange(from as int, to as int));
    while to > from && white(chars[to - 1])
        invariant
            chars@ == s@,
            from <= to <= chars.len(),
            head == trim_start(s@),
            trim_end(head) == trim_end(s@.subrange(from as int, to as int)),
        decreases to,
    {
        assert(s@.subrange(from as int, to as int).drop_last() =~= s@.subrange(
            from as int,
            to - 1,
        ));
        to -= 1;
    }
    to_text(&chars, from, to)
}

/// Trimming leaves a part of the text that neither starts nor ends with white space, and that
/// trimming leaves as it is.
pub proof fn lemma_trimmed(s: Seq<char>)
    ensures
        trimmed(s).len() > 0 ==> !is_white(trimmed(s)[0]) && !is_white(trimmed(s).last()),
        forall|c: char| #[trigger] trimmed(s).contains(c) ==> s.contains(c),
        trimmed(trimmed(s)) == trimmed(s),
{
    lemma_trim_start(s);
    let head = trim_start(s);
    lemma_trim_end(head);
    let t = trim_end(head);
    if t.len() > 0 {
        assert(t[0] == head[0]);
    }
    assert forall|c: char| #[trigger] t.contains(c) implies s.contains(c) by {
        let k = choose|k: int| 0 <= k < t.len() && t[k] == c;
        assert(head[k] == c);
        assert(head.contains(c));
    }
}

proof fn lemma_trim_start(s: Seq<char>)
    ensures
        trim_start(s).len() > 0 ==> !is_white(trim_start(s)[0]),
        forall|c: char| #[trigger] trim_start(s).contains(c) ==> s.contains(c),
    decreases s.len(),
{
    if s.len() > 0 && is_white(s[0]) {
        let rest = s.drop_first();
        lemma_trim_start(rest);
        assert forall|c: char| #[trigger] trim_start(s).contains(c) implies s.contains(c) by {
            assert(rest.contains(c));
            let k = choose|k: int| 0 <= k < rest.len() && rest[k] == c;
            assert(s[k + 1] == c);
        }
    }
}

proof fn lemma_trim_end(s: Seq<char>)
    ensures
        trim_end(s).len() > 0 ==> !is_white(trim_end(s).last()),
        trim_end(s).is_prefix_of(s),
    decreases s.len(),
{
    if s.len() > 0 && is_white(s.last()) {
        lemma_trim_end(s.drop_last());
        assert(trim_end(s) =~= s.subrange(0, trim_end(s).len() as int));
    } else {
        assert(s =~= s.subrange(0, s.len() as int));
    }
}

/// `s` without the characters `c` at its end.
pub open spec fn trim_end_char(s: Seq<char>, c: char) -> Seq<char>
    decreases s.len(),
{
    if s.len() > 0 && s.last() == c {
        trim_end_char(s.drop_last(), c)
    } else {
        s
    }
}

pub fn trim_end_of(s: &str, c: char) -> (r: String)
    ensures
        r@ == trim_end_char(s@, c),
{
    let chars = to_chars(s);
    let mut to: usize = chars.len();
    assert(s@.take(to as int) =~= s@);
    while to > 0 && chars[to - 1] == c
        invariant
            chars@ == s@,
            to <= chars.len(),
            trim_end_char(s@, c) == trim_end_char(s@.take(to as int), c),
        decreases to,
    {
        assert(s@.take(to as int).drop_last() =~= s@.take(to - 1));
        to -= 1;
    }
    assert(s@.subrange(0, to as int) =~= s@.take(to as int));
    to_text(&chars, 0, to)
}

// ---------------------------------------------------------------------------
// Splitting and joining
// ---------------------------------------------------------------------------
/// The pieces of `s` between the characters `sep`.
pub open spec fn split_seq(s: Seq<char>, sep: char) -> Seq<Seq<char>>
    decreases s.len(),
{
    if s.len() == 0 {
        seq![Seq::<char>::empty()]
    } else {
        let before = split_seq(s.drop_last(), sep);
        if s.last() == sep {
            before.push(Seq::<char>::empty())
        } else {
            before.drop_last().push(before.last().push(s.last()))
        }
    }
}

pub fn split(s: &str, sep: char) -> (r: Vec<String>)
    ensures
        texts(r@) == split_seq(s@, sep),
        r@.len() > 0,
{
    broadcast use texts_push;

    let chars = to_chars(s);
    let mut r: Vec<String> = Vec::new();
    let mut from: usize = 0;
    let mut i: usize = 0;
    proof {
        assert(s@.take(0) =~= Seq::<char>::empty());
        assert(texts(r@).push(s@.subrange(0, 0)) =~= seq![Seq::<char>::empty()]);
    }
    while i < chars.len()
        invariant
            chars@ == s@,
            from <= i <= chars.len(),
            split_seq(s@.take(i as int), sep) == texts(r@).push(s@.subrange(from as int, i as int)),
        decreases chars.len() - i,
    {
        proof {
            assert(s@.take(i + 1).drop_last() =~= s@.take(i as int));
            assert(s@.take(i + 1).last() == s@[i as int]);
            assert(s@.subrange(from as int, i + 1) =~= s@.subrange(from as int, i as int).push(
                s@[i as int],
            ));
            let before = split_seq(s@.take(i as int), sep);
            assert(before.drop_last() =~= texts(r@));
            assert(before.last() == s@.subrange(from as int, i as int));
        }
        if chars[i] == sep {
            r.push(to_text(&chars, from, i));
            from = i + 1;
            assert(s@.subrange(from as int, i + 1) =~= Seq::<char>::empty());
        }
        i += 1;
    }
    assert(s@.take(i as int) =~= s@);
    r.push(to_text(&chars, from, i));
    r
}

/// Every text has at least one piece, and no piece holds the separator.
pub proof fn lemma_split(s: Seq<char>, c: char)
    ensures
        split_seq(s, c).len() > 0,
        forall|i: int|
            0 <= i < split_seq(s, c).len() ==> !(#[trigger] split_seq(s, c)[i]).contains(c),
        s.len() == 0 ==> split_seq(s, c) == seq![Seq::<char>::empty()],
        split_seq(s, c).len() == 1 ==> split_seq(s, c)[0] == s,
        split_seq(s, c).len() > 1 ==> s.len() > 0,
    decreases s.len(),
{
    if s.len() > 0 {
        let init = s.drop_last();
        lemma_split(init, c);
        let before = split_seq(init, c);
        let after = split_seq(s, c);
        assert forall|i: int| 0 <= i < after.len() implies !(#[trigger] after[i]).contains(c) by {
            if i < before.len() - 1 || (s.last() == c && i < before.len()) {
                assert(after[i] == before[i]);
            } else if s.last() != c {
                let l = before.last();
                assert(before[before.len() - 1] == l);
                assert(after[i] == l.push(s.last()));
                if after[i].contains(c) {
                    let k = choose|k: int| 0 <= k < after[i].len() && after[i][k] == c;
                    assert(l[k] == c);
                    assert(l.contains(c));
                }
            }
        }
        if s.last() != c && after.len() == 1 {
            assert(after[0] == before[0].push(s.last()));
            assert(s =~= init.push(s.last()));
        }
    }
}

/// Text without separators goes on with the last piece.
pub proof fn lemma_split_extend(a: Seq<char>, b: Seq<char>, sep: char)
    requires
        !b.contains(sep),
    ensures
        split_seq(a + b, sep) == split_seq(a, sep).drop_last().push(split_seq(a, sep).last() + b),
    decreases b.len(),
{
    let pieces = split_seq(a, sep);
    lemma_split(a, sep);
    if b.len() == 0 {
        assert(a + b =~= a);
        assert(pieces.last() + b =~= pieces.last());
        assert(pieces =~= pieces.drop_last().push(pieces.last()));
    } else {
        let init = b.drop_last();
        assert(!init.contains(sep)) by {
            if init.contains(sep) {
                let k = choose|k: int| 0 <= k < init.len() && init[k] == sep;
                assert(b[k] == sep);
            }
        }
        lemma_split_extend(a, init, sep);
        assert((a + b).drop_last() =~= a + init);
        assert((a + b).last() == b.last());
        assert(b[b.len() - 1] == b.last());
        let before = pieces.drop_last().push(pieces.last() + init);
        assert(before.drop_last() =~= pieces.drop_last());
        assert((pieces.last() + init).push(b.last()) =~= pieces.last() + b);
    }
}

/// A separator and a piece after it add the piece.
pub proof fn lemma_split_append(a: Seq<char>, sep: char, b: Seq<char>)
    requires
        !b.contains(sep),
    ensures
        split_seq(a.push(sep) + b, sep) == split_seq(a, sep).push(b),
{
    lemma_split_extend(a.push(sep), b, sep);
    assert(a.push(sep).drop_last() =~= a);
    let pieces = split_seq(a, sep).push(Seq::<char>::empty());
    assert(pieces.drop_last() =~= split_seq(a, sep));
    assert(Seq::<char>::empty() + b =~= b);
}

/// A line without the carriage return that may end it.
pub open spec fn strip_return(s: Seq<char>) -> Seq<char> {
    if s.len() > 0 && s.last() == '\r' {
        s.drop_last()
    } else {
        s
    }
}

/// The carriage return that ends a line is white space.
pub proof fn lemma_strip_return(s: Seq<char>)
    ensures
        trimmed(strip_return(s)) == trimmed(s),
{
    if s.len() > 0 && s.last() == '\r' {
        lemma_trim_white_end(s);
    }
}

proof fn lemma_trim_white_end(s: Seq<char>)
    requires
        s.len() > 0,
        is_white(s.last()),
    ensures
        trimmed(s.drop_last()) == trimmed(s),
    decreases s.len(),
{
    if is_white(s[0]) {
        if s.len() > 1 {
            lemma_trim_white_end(s.drop_first());
            assert(s.drop_first().drop_last() =~= s.drop_last().drop_first());
        } else {
            assert(s.drop_first() =~= s.drop_last());
        }
    }
}

/// The lines of `s`: a line ends with a line feed, or with a carriage return and a line feed;
/// the last one may end with the text.
pub open spec fn lines_seq(s: Seq<char>) -> Seq<Seq<char>> {
    let pieces = split_seq(s, '\n');
    let ended = pieces.drop_last().map_values(|p: Seq<char>| strip_return(p));
    if pieces.last().len() == 0 {
        ended
    } else {
        ended.push(pieces.last())
    }
}

pub fn lines(s: &str) -> (r: Vec<String>)
    ensures
        texts(r@) == lines_seq(s@),
{
    broadcast use texts_push;

    let pieces = split(s, '\n');
    let ghost all = split_seq(s@, '\n');
    let ghost strip = |p: Seq<char>| strip_return(p);
    let n = pieces.len() - 1;
    let mut r: Vec<String> = Vec::new();
    let mut i: usize = 0;
    assert(texts(r@) =~= all.take(0).map_values(strip));
    while i < n
        invariant
            i <= n,
            n == pieces.len() - 1,
            all == texts(pieces@),
            strip == (|p: Seq<char>| strip_return(p)),
            texts(r@) == all.take(i as int).map_values(strip),
        decreases n - i,
    {
        let chars = to_chars(pieces[i].as_str());
        let end = if chars.len() > 0 && chars[chars.len() - 1] == '\r' {
            chars.len() - 1
        } else {
            chars.len()
        };
        let line = to_text(&chars, 0, end);
        assert(line@ =~= strip_return(all[i as int]));
        r.push(line);
        assert(all.take(i + 1).map_values(strip) =~= all.take(i as int).map_values(strip).push(
            line@,
        ));
        i += 1;
    }
    assert(all.take(n as int) =~= all.drop_last());
    let last = pieces[n].clone();
    assert(last@ == all.last());
    if !last.as_str().is_empty() {
        r.push(last);
    }
    r
}

/// The lines one after the other, each with a line feed after it.
pub open spec fn unlines(lines: Seq<Seq<char>>) -> Seq<char>
    decreases lines.len(),
{
    if lines.len() == 0 {
        Seq::empty()
    } else {
        (unlines(lines.drop_last()) + lines.last()).push('\n')
    }
}

pub fn unlines_text(lines: &Vec<String>) -> (r: String)
    ensures
        r@ == unlines(texts(lines@)),
{
    let mut r = String::new();
    let mut i: usize = 0;
    while i < lines.len()
        invariant
            i <= lines.len(),
            r@ == unlines(texts(lines@).take(i as int)),
        decreases lines.len() - i,
    {
        let ghost seen = texts(lines@).take(i + 1);
        assert(seen.drop_last() =~= texts(lines@).take(i as int));
        assert(seen.last() == lines@[i as int]@);
        r.append(lines[i].as_str());
        r.push('\n');
        i += 1;
    }
    assert(texts(lines@).take(lines@.len() as int) =~= texts(lines@));
    r
}

/// The lines of a text are those that it was put together from, but for the carriage returns that
/// end them.
pub proof fn lemma_unlines(list: Seq<Seq<char>>)
    requires
        forall|i: int| 0 <= i < list.len() ==> !(#[trigger] list[i]).contains('\n'),
    ensures
        split_seq(unlines(list), '\n') == list.push(Seq::<char>::empty()),
        lines_seq(unlines(list)) == list.map_values(|p: Seq<char>| strip_return(p)),
    decreases list.len(),
{
    let nothing = Seq::<char>::empty();
    if list.len() == 0 {
        assert(split_seq(unlines(list), '\n') =~= list.push(nothing));
    } else {
        let init = list.drop_last();
        assert forall|i: int| 0 <= i < init.len() implies !(#[trigger] init[i]).contains('\n') by {
            assert(init[i] == list[i]);
        }
        lemma_unlines(init);
        let l = list.last();
        assert(list[list.len() - 1] == l);
        lemma_split_extend(unlines(init), l, '\n');
        let pieces = init.push(nothing);
        assert(pieces.drop_last() =~= init);
        assert(nothing + l =~= l);
        assert(init.push(l) =~= list);
        let whole = unlines(list);
        assert(whole.drop_last() =~= unlines(init) + l);
        assert(whole.last() == '\n');
    }
    assert(list.push(nothing).drop_last() =~= list);
}

/// The last position of `c` in `s`.
pub open spec fn last_index(s: Seq<char>, c: char) -> Option<int>
    decreases s.len(),
{
    if s.len() == 0 {
        None
    } else if s.last() == c {
        Some(s.len() - 1)
    } else {
        last_index(s.drop_last(), c)
    }
}

/// What stands before and after the last `c` of `s`.
pub open spec fn split_last(s: Seq<char>, c: char) -> Option<(Seq<char>, Seq<char>)> {
    match last_index(s, c) {
        Some(i) => Some((s.take(i), s.skip(i + 1))),
        None => None,
    }
}

/// A text is parted at a character where that stands for the last time.
pub proof fn law_split_last(a: Seq<char>, c: char, b: Seq<char>)
    requires
        !b.contains(c),
    ensures
        split_last(a.push(c) + b, c) == Some((a, b)),
        split_last(b, c) is None,
    decreases b.len(),
{
    let s = a.push(c) + b;
    if b.len() == 0 {
        assert(s =~= a.push(c));
        assert(s.take(a.len() as int) =~= a);
        assert(s.skip(a.len() as int + 1) =~= b);
    } else {
        let shorter = b.drop_last();
        assert(b.contains(b.last())) by {
            assert(b[b.len() - 1] == b.last());
        }
        if shorter.contains(c) {
            let i = choose|i: int| 0 <= i < shorter.len() && shorter[i] == c;
            assert(b[i] == c);
        }
        law_split_last(a, c, shorter);
        assert(s.drop_last() =~= a.push(c) + shorter);
        lemma_last_index(s.drop_last(), c);
        lemma_last_index(shorter, c);
        let at = last_index(s.drop_last(), c)->0;
        assert((a.push(c) + shorter).take(at).len() == at);
        assert(at == a.len());
        assert(s.take(at) =~= a);
        assert(s.skip(at + 1) =~= b);
    }
}

/// A text that is parted at a character is put together again by it, and the second part does not
/// hold the character; a text that is not parted does not hold it at all.
pub proof fn law_split_last_joins(s: Seq<char>, c: char)
    ensures
        match split_last(s, c) {
            Some(p) => s == p.0.push(c) + p.1 && !p.1.contains(c),
            None => !s.contains(c),
        },
{
    lemma_last_index(s, c);
    match last_index(s, c) {
        Some(at) => {
            let rest = s.skip(at + 1);
            assert(s =~= s.take(at).push(c) + rest);
            if rest.contains(c) {
                let i = choose|i: int| 0 <= i < rest.len() && rest[i] == c;
                assert(s[at + 1 + i] == c);
            }
        },
        None => {},
    }
}

proof fn lemma_last_index(s: Seq<char>, c: char)
    ensures
        match last_index(s, c) {
            Some(at) => 0 <= at < s.len() && s[at] == c && forall|i: int|
                at < i < s.len() ==> #[trigger] s[i] != c,
            None => !s.contains(c),
        },
    decreases s.len(),
{
    if s.len() > 0 && s.last() != c {
        let init = s.drop_last();
        lemma_last_index(init, c);
        match last_index(init, c) {
            Some(at) => {
                assert forall|i: int| at < i < s.len() implies #[trigger] s[i] != c by {
                    if i < init.len() {
                        assert(init[i] == s[i]);
                    }
                }
            },
            None => {
                if s.contains(c) {
                    let i = choose|i: int| 0 <= i < s.len() && s[i] == c;
                    assert(init[i] == c);
                }
            },
        }
    }
}

pub fn rsplit_once(s: &str, c: char) -> (r: Option<(String, String)>)
    ensures
        match r {
            Some(p) => split_last(s@, c) == Some((p.0@, p.1@)),
            None => split_last(s@, c) is None,
        },
{
    let chars = to_chars(s);
    let mut i: usize = chars.len();
    assert(s@.take(i as int) =~= s@);
    while i > 0
        invariant
            chars@ == s@,
            i <= chars.len(),
            last_index(s@, c) == last_index(s@.take(i as int), c),
        decreases i,
    {
        i -= 1;
        assert(s@.take(i + 1).last() == s@[i as int]);
        assert(s@.take(i + 1).drop_last() =~= s@.take(i as int));
        if chars[i] == c {
            proof {
                assert(last_index(s@, c) == Some(i as int));
                assert(s@.subrange(0, i as int) =~= s@.take(i as int));
                assert(s@.subrange(i + 1, s@.len() as int) =~= s@.skip(i + 1));
            }
            return Some((to_text(&chars, 0, i), to_text(&chars, i + 1, chars.len())));
        }
    }
    None
}

// ---------------------------------------------------------------------------
// Numbers
// ---------------------------------------------------------------------------
pub open spec fn is_digit(c: char) -> bool {
    '0' <= c <= '9'
}

pub open spec fn digit_value(c: char) -> nat {
    (c as u32 - 48) as nat
}

pub open spec fn digit_char(d: nat) -> char {
    ((48 + d) as u32) as char
}

pub open spec fn is_hex_digit(c: char) -> bool {
    is_digit(c) || 'a' <= c <= 'f' || 'A' <= c <= 'F'
}

pub fn hex_digit(c: char) -> (r: bool)
    ensures
        r == is_hex_digit(c),
{
    ('0' <= c && c <= '9') || ('a' <= c && c <= 'f') || ('A' <= c && c <= 'F')
}

/// The decimal digits of a number.
pub open spec fn decimal(n: nat) -> Seq<char>
    decreases n,
{
    if n < 10 {
        seq![digit_char(n)]
    } else {
        decimal(n / 10).push(digit_char(n % 10))
    }
}

/// The decimal digits of a number, after a minus sign where it is negative.
pub open spec fn signed_decimal(n: int) -> Seq<char> {
    if n < 0 {
        seq!['-'] + decimal((-n) as nat)
    } else {
        decimal(n as nat)
    }
}

pub open spec fn all_digits(s: Seq<char>) -> bool {
    forall|i: int| 0 <= i < s.len() ==> is_digit(#[trigger] s[i])
}

/// The number that the digits of `s` write.
pub open spec fn digits_value(s: Seq<char>) -> nat
    decreases s.len(),
{
    if s.len() == 0 {
        0
    } else {
        digits_value(s.drop_last()) * 10 + digit_value(s.last())
    }
}

/// The number up to `max` that `s` writes: digits, after a plus sign or not.
pub open spec fn unsigned(s: Seq<char>, max: nat) -> Option<nat> {
    let body = if s.len() > 0 && s[0] == '+' {
        s.drop_first()
    } else {
        s
    };
    if body.len() == 0 || !all_digits(body) || digits_value(body) > max {
        None
    } else {
        Some(digits_value(body))
    }
}

pub fn decimal_text(n: u64) -> (r: String)
    ensures
        r@ == decimal(n as nat),
    decreases n,
{
    let d: u8 = 48 + (n % 10) as u8;
    if n < 10 {
        let mut r = String::new();
        r.push(d as char);
        assert(r@ =~= decimal(n as nat));
        r
    } else {
        let mut r = decimal_text(n / 10);
        r.push(d as char);
        r
    }
}

pub fn signed_text(n: i32) -> (r: String)
    ensures
        r@ == signed_decimal(n as int),
{
    if n < 0 {
        let mut r = String::new();
        r.push('-');
        let rest = decimal_text((-(n as i64)) as u64);
        r.append(rest.as_str());
        assert(r@ =~= signed_decimal(n as int));
        r
    } else {
        decimal_text(n as u64)
    }
}

proof fn lemma_value_grows(s: Seq<char>, i: int)
    requires
        0 <= i <= s.len(),
    ensures
        digits_value(s.take(i)) <= digits_value(s),
    decreases s.len() - i,
{
    if i == s.len() {
        assert(s.take(i) =~= s);
    } else {
        lemma_value_grows(s, i + 1);
        assert(s.take(i + 1).drop_last() =~= s.take(i));
    }
}

pub fn parse_unsigned(s: &str, max: u64) -> (r: Option<u64>)
    ensures
        match r {
            Some(n) => unsigned(s@, max as nat) == Some(n as nat),
            None => unsigned(s@, max as nat) is None,
        },
{
    let all = to_chars(s);
    let start: usize = if all.len() > 0 && all[0] == '+' {
        1
    } else {
        0
    };
    let ghost body = s@.skip(start as int);
    assert(start == 1 ==> s@.drop_first() =~= body);
    assert(start == 0 ==> s@ =~= body);
    if all.len() == start {
        return None;
    }
    let mut n: u64 = 0;
    let mut i: usize = start;
    assert(body.take(0) =~= Seq::<char>::empty());
    while i < all.len()
        invariant
            all@ == s@,
            start <= i <= all.len(),
            start < all.len(),
            body == s@.skip(start as int),
            unsigned(s@, max as nat) == (if !all_digits(body) || digits_value(body) > max {
                None::<nat>
            } else {
                Some(digits_value(body))
            }),
            n == digits_value(body.take(i - start)),
            n <= max,
            forall|k: int| 0 <= k < i - start ==> is_digit(#[trigger] body[k]),
        decreases all.len() - i,
    {
        let c = all[i];
        let ghost k = i - start;
        assert(c == body[k]);
        if !('0' <= c && c <= '9') {
            return None;
        }
        let d: u64 = (c as u32 - 48) as u64;
        assert(body.take(k + 1).drop_last() =~= body.take(k));
        assert(body.take(k + 1).last() == c);
        proof {
            lemma_value_grows(body, k + 1);
        }
        if d > max || n > (max - d) / 10 {
            return None;
        }
        n = n * 10 + d;
        i += 1;
    }
    assert(body.take(body.len() as int) =~= body);
    Some(n)
}

/// A number that was written in decimal digits is read back.
pub proof fn law_decimal_read_back(n: nat, max: nat)
    requires
        n <= max,
    ensures
        unsigned(decimal(n), max) == Some(n),
{
    lemma_decimal(n);
}

/// A number that is too great is not read, and neither is a text without a digit or with a
/// character that is none; a plus sign before the digits does not count.
pub proof fn law_unreadable_numbers(n: nat, max: nat, text: Seq<char>, i: int)
    requires
        0 <= i < text.len(),
        !('0' <= text[i] <= '9'),
        i > 0 || text[i] != '+',
    ensures
        n > max ==> unsigned(decimal(n), max) is None,
        unsigned(text, max) is None,
        unsigned(Seq::empty(), max) is None,
        unsigned(seq!['+'], max) is None,
        unsigned(seq!['+'] + decimal(n), max) == unsigned(decimal(n), max),
{
    lemma_decimal(n);
    assert(is_digit(decimal(n)[0]));
    assert((seq!['+'] + decimal(n)).drop_first() =~= decimal(n));
    assert(seq!['+'].drop_first().len() == 0);
    if text[0] == '+' {
        assert(text.drop_first()[i - 1] == text[i]);
    }
    assert(!is_digit(text[i]));
}

/// One more digit after a number that is read makes ten times the number and the digit.
pub proof fn law_one_more_digit(s: Seq<char>, d: nat, max: nat)
    requires
        d < 10,
        unsigned(s, max) is Some,
    ensures
        ({
            let n = unsigned(s, max)->0 * 10 + d;
            unsigned(s + decimal(d), max) == if n <= max {
                Some(n)
            } else {
                None
            }
        }),
        unsigned(decimal(0) + s, max) == if s[0] == '+' {
            None
        } else {
            unsigned(s, max)
        },
{
    lemma_decimal(d);
    lemma_decimal(0);
    let signed = s.len() > 0 && s[0] == '+';
    let body = if signed {
        s.drop_first()
    } else {
        s
    };
    let longer = s + decimal(d);
    assert(longer =~= s.push(digit_char(d)));
    if signed {
        assert(longer.drop_first() =~= body.push(digit_char(d)));
    }
    let more = body.push(digit_char(d));
    assert(more.drop_last() =~= body);
    assert(all_digits(more));
    let zero = decimal(0) + s;
    assert(zero[0] == '0');
    if signed {
        assert(zero[1] == '+');
    } else {
        lemma_leading_zero(s);
        assert(zero =~= seq!['0'] + s);
        assert(all_digits(zero));
    }
}

proof fn lemma_leading_zero(s: Seq<char>)
    ensures
        digits_value(seq!['0'] + s) == digits_value(s),
    decreases s.len(),
{
    let longer = seq!['0'] + s;
    if s.len() == 0 {
        reveal_with_fuel(digits_value, 2);
        assert(longer.drop_last() =~= Seq::<char>::empty());
        assert(longer.last() == '0');
    } else {
        lemma_leading_zero(s.drop_last());
        assert(longer.drop_last() =~= seq!['0'] + s.drop_last());
    }
}

/// Decimal digits are digits, and write the number.
pub proof fn lemma_decimal(n: nat)
    ensures
        decimal(n).len() > 0,
        all_digits(decimal(n)),
        digits_value(decimal(n)) == n,
    decreases n,
{
    reveal_with_fuel(digits_value, 2);
    if n >= 10 {
        lemma_decimal(n / 10);
        assert(decimal(n).drop_last() =~= decimal(n / 10));
    } else {
        assert(decimal(n).drop_last() =~= Seq::<char>::empty());
    }
}

/// The pieces of two texts with a separator between them are those of the first and then those of
/// the second.
pub proof fn law_split_joined(a: Seq<char>, sep: char, b: Seq<char>)
    ensures
        split_seq(a.push(sep) + b, sep) == split_seq(a, sep) + split_seq(b, sep),
    decreases b.len(),
{
    let pieces = split_seq(a, sep);
    if b.len() == 0 {
        assert(a.push(sep) + b =~= a.push(sep));
        assert(a.push(sep).drop_last() =~= a);
        assert(pieces.push(Seq::<char>::empty()) =~= pieces + split_seq(b, sep));
    } else {
        let init = b.drop_last();
        law_split_joined(a, sep, init);
        lemma_split(init, sep);
        let whole = a.push(sep) + b;
        let before = pieces + split_seq(init, sep);
        assert(whole.drop_last() =~= a.push(sep) + init);
        assert(whole.last() == b.last());
        assert(before.last() == split_seq(init, sep).last());
        assert(before.drop_last() =~= pieces + split_seq(init, sep).drop_last());
        assert(split_seq(whole, sep) =~= pieces + split_seq(b, sep));
    }
}

/// Capital letters of ASCII become the small letters of the same place in the alphabet, and no
/// other character changes; texts are the same but for capitals where they become the same.
pub proof fn law_small_letters(c: char, s: Seq<char>)
    ensures
        'A' <= c <= 'Z' ==> 'a' <= ascii_lower(c) <= 'z' && ascii_lower(c) as int - 'a' as int
            == c as int - 'A' as int,
        !('A' <= c <= 'Z') ==> ascii_lower(c) == c,
        ascii_lower_all(s).len() == s.len(),
        ascii_lower_all(ascii_lower_all(s)) == ascii_lower_all(s),
{
    assert(ascii_lower_all(ascii_lower_all(s)) =~= ascii_lower_all(s));
}

/// Blanks, tabs, line ends and the wide blank are white space; letters, digits and the signs of
/// ASCII are not.
pub proof fn law_white_space(c: char)
    ensures
        is_white(' ') && is_white('\t') && is_white('\n') && is_white('\r') && is_white('\u{3000}'),
        '!' <= c <= '~' ==> !is_white(c),
        '\u{4e00}' <= c <= '\u{9fff}' ==> !is_white(c),
{
}

/// White space around a text that neither starts nor ends with it is trimmed away, however much
/// there is, and the white space inside stays.
pub proof fn law_trimmed_of_space(a: Seq<char>, s: Seq<char>, b: Seq<char>)
    requires
        forall|i: int| 0 <= i < a.len() ==> is_white(#[trigger] a[i]),
        forall|i: int| 0 <= i < b.len() ==> is_white(#[trigger] b[i]),
        s.len() > 0 ==> !is_white(s[0]) && !is_white(s.last()),
    ensures
        trimmed(a + s + b) == s,
    decreases a.len(), b.len(),
{
    let whole = a + s + b;
    if a.len() > 0 {
        let rest = a.drop_first();
        assert forall|i: int| 0 <= i < rest.len() implies is_white(#[trigger] rest[i]) by {
            assert(rest[i] == a[i + 1]);
        }
        law_trimmed_of_space(rest, s, b);
        assert(whole[0] == a[0]);
        assert(whole.drop_first() =~= rest + s + b);
    } else if b.len() > 0 {
        let rest = b.drop_last();
        assert forall|i: int| 0 <= i < rest.len() implies is_white(#[trigger] rest[i]) by {
            assert(rest[i] == b[i]);
        }
        law_trimmed_of_space(a, s, rest);
        assert(b[b.len() - 1] == b.last());
        assert(whole.last() == b.last());
        assert(whole.drop_last() =~= a + s + rest);
        lemma_trim_white_end(whole);
    } else {
        assert(whole =~= s);
        if s.len() > 0 {
            assert(trim_start(s) == s);
        }
    }
}

/// A character that ends a text, however often, is trimmed away there and nowhere else.
pub proof fn law_end_is_trimmed(s: Seq<char>, c: char, n: nat)
    requires
        s.len() == 0 || s.last() != c,
    ensures
        trim_end_char(s + Seq::new(n, |i: int| c), c) == s,
    decreases n,
{
    let tail = Seq::new(n, |i: int| c);
    if n == 0 {
        assert(s + tail =~= s);
    } else {
        let less = Seq::new((n - 1) as nat, |i: int| c);
        law_end_is_trimmed(s, c, (n - 1) as nat);
        assert((s + tail).last() == c);
        assert((s + tail).drop_last() =~= s + less);
    }
}

/// Texts are in the order of the first characters in which they differ; a text comes before the
/// same text with more after it.
pub proof fn law_first_difference_decides(
    same: Seq<char>,
    c: char,
    d: char,
    x: Seq<char>,
    y: Seq<char>,
)
    requires
        c != d,
    ensures
        text_before(same.push(c) + x, same.push(d) + y) <==> c < d,
        text_before(same, same.push(d) + y),
        !text_before(same.push(d) + y, same),
    decreases same.len(),
{
    let a = same.push(c) + x;
    let b = same.push(d) + y;
    if same.len() > 0 {
        let rest = same.drop_first();
        law_first_difference_decides(rest, c, d, x, y);
        assert(a.drop_first() =~= rest.push(c) + x);
        assert(b.drop_first() =~= rest.push(d) + y);
        assert(a[0] == same[0] && b[0] == same[0]);
    } else {
        assert(a[0] == c && b[0] == d);
    }
}

/// A text that is put together from lines has these lines, in order, whatever they hold besides
/// line ends, and whether they end as on Unix or as on Windows.
pub proof fn law_lines_read_back(a: Seq<char>, b: Seq<char>)
    requires
        !a.contains('\n'),
        !b.contains('\n'),
        a.len() == 0 || a.last() != '\r',
        b.len() == 0 || b.last() != '\r',
    ensures
        lines_seq(unlines(seq![a, b])) == seq![a, b],
        lines_seq(unlines(seq![a.push('\r'), b])) == seq![a, b],
{
    let plain = seq![a, b];
    let marked = seq![a.push('\r'), b];
    assert(!a.push('\r').contains('\n')) by {
        if a.push('\r').contains('\n') {
            let k = choose|k: int| 0 <= k < a.push('\r').len() && a.push('\r')[k] == '\n';
            assert(a[k] == '\n');
        }
    }
    lemma_unlines(plain);
    lemma_unlines(marked);
    let strip = |p: Seq<char>| strip_return(p);
    assert(a.push('\r').drop_last() =~= a);
    assert(plain.map_values(strip) =~= plain);
    assert(marked.map_values(strip) =~= plain);
}

} // verus!
