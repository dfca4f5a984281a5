//! The list of banned clients, kept as a text file with one ban on a line.
use crate::text::{
    decimal, decimal_text, is_digit, is_white, law_split_last, law_trimmed_of_space, lemma_decimal,
    lemma_split, lemma_split_extend, lemma_strip_return, lemma_trimmed, lemma_unlines, lines, lines_seq, parse_unsigned,
    rsplit_once, same_text, split_last, split_seq, strip_return, texts, texts_push, to_chars, trim,
    trim_end, trim_start, trimmed, unlines, unlines_text, unsigned,
};
use vstd::prelude::*;

verus! {

// ---------------------------------------------------------------------------
// Reading
// ---------------------------------------------------------------------------
/// What a line of the list says.
pub enum BanLine {
    /// Nothing: it is empty, or a comment.
    Nothing,
    /// A client is banned since a moment, in seconds since the start of 1970, where the moment
    /// can be read.
    Since(Seq<char>, Option<nat>),
    /// A client is banned for good.
    Always(Seq<char>),
}

/// What a line says, without the white space around it: a client and a moment, with a colon
/// between them, or just a client. The client may hold colons itself, so the moment stands after
/// the last one. What follows a single colon is taken for a moment even where it cannot be read.
pub open spec fn read_line(line: Seq<char>) -> BanLine {
    let t = trimmed(line);
    if t.len() == 0 || t[0] == '#' {
        BanLine::Nothing
    } else {
        match split_last(t, ':') {
            None => BanLine::Always(t),
            Some(p) => if unsigned(p.1, u64::MAX as nat) is None && split_last(p.0, ':') is Some {
                BanLine::Always(t)
            } else {
                BanLine::Since(p.0, unsigned(p.1, u64::MAX as nat))
            },
        }
    }
}

/// A ban since a moment still holds.
pub open spec fn still_holds(since: nat, now: int, ban_secs: int) -> bool {
    (if now >= since {
        now - since
    } else {
        0
    }) < ban_secs
}

/// A line bans a client at a moment.
pub open spec fn line_bans(line: Seq<char>, ip: Seq<char>, now: int, ban_secs: int) -> bool {
    match read_line(line) {
        BanLine::Nothing => false,
        BanLine::Since(banned, Some(since)) => banned == ip && still_holds(since, now, ban_secs),
        BanLine::Since(_, None) => false,
        BanLine::Always(banned) => banned == ip,
    }
}

/// A list bans a client at a moment.
pub open spec fn bans(list: Seq<char>, ip: Seq<char>, now: int, ban_secs: int) -> bool {
    exists|i: int|
        0 <= i < lines_seq(list).len() && line_bans(#[trigger] lines_seq(list)[i], ip, now, ban_secs)
}

fn first_char_is(s: &str, c: char) -> (r: bool)
    ensures
        r == (s@.len() > 0 && s@[0] == c),
{
    let chars = to_chars(s);
    chars.len() > 0 && chars[0] == c
}

/// What a line of the list says, as `BanLine` has it.
enum Entry {
    Nothing,
    Since(String, Option<u64>),
    Always(String),
}

impl View for Entry {
    type V = BanLine;

    closed spec fn view(&self) -> BanLine {
        match self {
            Entry::Nothing => BanLine::Nothing,
            Entry::Since(ip, Some(since)) => BanLine::Since(ip@, Some(*since as nat)),
            Entry::Since(ip, None) => BanLine::Since(ip@, None),
            Entry::Always(ip) => BanLine::Always(ip@),
        }
    }
}

fn parse_line(line: &str) -> (r: Entry)
    ensures
        r@ == read_line(line@),
{
    let t = trim(line);
    if t.as_str().is_empty() || first_char_is(t.as_str(), '#') {
        return Entry::Nothing;
    }
    match rsplit_once(t.as_str(), ':') {
        None => Entry::Always(t),
        Some((ip, moment)) => match parse_unsigned(moment.as_str(), u64::MAX) {
            Some(since) => Entry::Since(ip, Some(since)),
            None => if rsplit_once(ip.as_str(), ':').is_some() {
                Entry::Always(t)
            } else {
                Entry::Since(ip, None)
            },
        },
    }
}

fn check_line(line: &str, ip: &str, now: u64, ban_secs: u64) -> (r: bool)
    ensures
        r == line_bans(line@, ip@, now as int, ban_secs as int),
{
    match parse_line(line) {
        Entry::Nothing => false,
        Entry::Since(banned, Some(since)) => same_text(banned.as_str(), ip) && now.saturating_sub(
            since,
        ) < ban_secs,
        Entry::Since(_, None) => false,
        Entry::Always(banned) => same_text(banned.as_str(), ip),
    }
}

/// Whether a list bans a client at a moment.
pub fn list_bans(list: &str, ip: &str, now: u64, ban_secs: u64) -> (r: bool)
    ensures
        r == bans(list@, ip@, now as int, ban_secs as int),
{
    let all = lines(list);
    let mut i: usize = 0;
    while i < all.len()
        invariant
            texts(all@) == lines_seq(list@),
            i <= all.len(),
            forall|k: int|
                0 <= k < i ==> !line_bans(
                    #[trigger] lines_seq(list@)[k],
                    ip@,
                    now as int,
                    ban_secs as int,
                ),
        decreases all.len() - i,
    {
        assert(lines_seq(list@)[i as int] == all@[i as int]@);
        if check_line(all[i].as_str(), ip, now, ban_secs) {
            return true;
        }
        i += 1;
    }
    false
}

// ---------------------------------------------------------------------------
// Adding
// ---------------------------------------------------------------------------
/// The line that bans a client from a moment on.
pub open spec fn ban_line(ip: Seq<char>, now: nat) -> Seq<char> {
    ip + ":"@ + decimal(now)
}

/// The comment at the head of a list.
pub open spec fn list_head() -> Seq<Seq<char>> {
    seq!["# IP Ban List - Auto-generated"@, "# Format: IP_ADDRESS:TIMESTAMP"@]
}

/// A list without bans.
pub open spec fn empty_list() -> Seq<char> {
    unlines(list_head().push(Seq::empty()))
}

/// A line that speaks of a client.
pub open spec fn names(line: Seq<char>, ip: Seq<char>) -> bool {
    match read_line(line) {
        BanLine::Nothing => false,
        BanLine::Since(banned, _) => banned == ip,
        BanLine::Always(banned) => banned == ip,
    }
}

/// The first line that speaks of a client.
pub open spec fn first_naming(all: Seq<Seq<char>>, ip: Seq<char>) -> Option<int>
    decreases all.len(),
{
    if all.len() == 0 {
        None
    } else if first_naming(all.drop_last(), ip) is Some {
        first_naming(all.drop_last(), ip)
    } else if names(all.last(), ip) {
        Some(all.len() - 1)
    } else {
        None
    }
}

/// A list whose last line is ended.
pub open spec fn ended(list: Seq<char>) -> Seq<char> {
    if list.len() == 0 || list.last() == '\n' {
        list
    } else {
        list.push('\n')
    }
}

/// A list to which the ban of a client was added: in place of the first line that speaks of
/// the client, or on a line of its own at the end.
pub open spec fn with_ban(list: Seq<char>, ip: Seq<char>, now: nat) -> Seq<char> {
    match first_naming(lines_seq(list), ip) {
        Some(i) => unlines(lines_seq(list).update(i, ban_line(ip, now))),
        None => (ended(list) + ban_line(ip, now)).push('\n'),
    }
}

proof fn lemma_first_naming(all: Seq<Seq<char>>, ip: Seq<char>)
    ensures
        match first_naming(all, ip) {
            Some(i) => 0 <= i < all.len() && names(all[i], ip) && forall|k: int|
                0 <= k < i ==> !names(#[trigger] all[k], ip),
            None => forall|k: int| 0 <= k < all.len() ==> !names(#[trigger] all[k], ip),
        },
    decreases all.len(),
{
    if all.len() > 0 {
        let init = all.drop_last();
        lemma_first_naming(init, ip);
        assert(forall|k: int| 0 <= k < init.len() ==> #[trigger] all[k] == init[k]);
    }
}

fn head_lines() -> (r: Vec<String>)
    ensures
        texts(r@) == list_head(),
{
    let r = vec![
        "# IP Ban List - Auto-generated".to_owned(),
        "# Format: IP_ADDRESS:TIMESTAMP".to_owned(),
    ];
    assert(texts(r@) =~= list_head());
    r
}

/// A list without bans.
pub fn new_list() -> (r: String)
    ensures
        r@ == empty_list(),
{
    broadcast use texts_push;

    let mut all = head_lines();
    all.push(String::new());
    assert(texts(all@) =~= list_head().push(Seq::empty()));
    unlines_text(&all)
}

fn line_names(line: &str, ip: &str) -> (r: bool)
    ensures
        r == names(line@, ip@),
{
    match parse_line(line) {
        Entry::Nothing => false,
        Entry::Since(banned, _) => same_text(banned.as_str(), ip),
        Entry::Always(banned) => same_text(banned.as_str(), ip),
    }
}

/// Adds the ban of a client from a moment on.
pub fn add_ban(list: &str, ip: &str, now: u64) -> (r: String)
    ensures
        r@ == with_ban(list@, ip@, now as nat),
{
    let mut all = lines(list);
    let ghost before = texts(all@);
    let mut entry = ip.to_owned();
    entry.append(":");
    entry.append(decimal_text(now).as_str());
    assert(entry@ =~= ban_line(ip@, now as nat));
    proof {
        lemma_first_naming(before, ip@);
    }
    let mut i: usize = 0;
    while i < all.len()
        invariant
            i <= all.len(),
            before == texts(all@),
            before == lines_seq(list@),
            entry@ == ban_line(ip@, now as nat),
            forall|k: int| 0 <= k < i ==> !names(#[trigger] before[k], ip@),
        decreases all.len() - i,
    {
        assert(before[i as int] == all@[i as int]@);
        if line_names(all[i].as_str(), ip) {
            proof {
                lemma_first_naming(before, ip@);
                assert(names(before[i as int], ip@));
                assert(first_naming(before, ip@) == Some(i as int));
            }
            all.set(i, entry);
            assert(texts(all@) =~= before.update(i as int, ban_line(ip@, now as nat)));
            return unlines_text(&all);
        }
        i += 1;
    }
    proof {
        lemma_first_naming(before, ip@);
    }
    let mut r = list.to_owned();
    let chars = to_chars(list);
    if chars.len() > 0 && chars[chars.len() - 1] != '\n' {
        r.push('\n');
    }
    r.append(entry.as_str());
    r.push('\n');
    r
}

// ---------------------------------------------------------------------------
// Removing
// ---------------------------------------------------------------------------
/// A line that is kept when bans that are over are removed: a ban since a moment that still
/// holds.
pub open spec fn is_kept(line: Seq<char>, now: int, ban_secs: int) -> bool {
    match read_line(line) {
        BanLine::Since(_, Some(since)) => still_holds(since, now, ban_secs),
        _ => false,
    }
}

/// The lines that are kept, without the white space around them.
pub open spec fn kept_lines(all: Seq<Seq<char>>, now: int, ban_secs: int) -> Seq<Seq<char>>
    decreases all.len(),
{
    if all.len() == 0 {
        seq![]
    } else if is_kept(all.last(), now, ban_secs) {
        kept_lines(all.drop_last(), now, ban_secs).push(trimmed(all.last()))
    } else {
        kept_lines(all.drop_last(), now, ban_secs)
    }
}

/// The head of a list that was cleaned at a moment.
pub open spec fn dated_head(now: nat) -> Seq<Seq<char>> {
    list_head().push("# Updated at: "@ + decimal(now)).push(Seq::empty())
}

/// A list from which the bans that are over were removed.
pub open spec fn cleaned(list: Seq<char>, now: nat, ban_secs: int) -> Seq<char> {
    let kept = kept_lines(lines_seq(list), now as int, ban_secs);
    if kept.len() == 0 {
        empty_list()
    } else {
        unlines(dated_head(now) + kept)
    }
}

fn keeps(line: &str, now: u64, ban_secs: u64) -> (r: Option<String>)
    ensures
        match r {
            Some(t) => is_kept(line@, now as int, ban_secs as int) && t@ == trimmed(line@),
            None => !is_kept(line@, now as int, ban_secs as int),
        },
{
    match parse_line(line) {
        Entry::Since(_, Some(since)) => if now.saturating_sub(since) < ban_secs {
            Some(trim(line))
        } else {
            None
        },
        _ => None,
    }
}

/// Removes the bans that are over.
pub fn clean_list(list: &str, now: u64, ban_secs: u64) -> (r: String)
    ensures
        r@ == cleaned(list@, now as nat, ban_secs as int),
{
    broadcast use texts_push;

    let all = lines(list);
    let ghost every = lines_seq(list@);
    let mut kept: Vec<String> = Vec::new();
    let mut i: usize = 0;
    assert(every.take(0) =~= seq![]);
    assert(texts(kept@) =~= seq![]);
    while i < all.len()
        invariant
            i <= all.len(),
            every == texts(all@),
            texts(kept@) == kept_lines(every.take(i as int), now as int, ban_secs as int),
        decreases all.len() - i,
    {
        assert(every.take(i + 1).drop_last() =~= every.take(i as int));
        assert(every.take(i + 1).last() == all@[i as int]@);
        if let Some(t) = keeps(all[i].as_str(), now, ban_secs) {
            kept.push(t);
        }
        i += 1;
    }
    assert(every.take(every.len() as int) =~= every);
    assert(texts(kept@).len() == kept@.len());
    if kept.len() == 0 {
        return new_list();
    }
    let mut whole = head_lines();
    let mut note = "# Updated at: ".to_owned();
    note.append(decimal_text(now).as_str());
    whole.push(note);
    whole.push(String::new());
    assert(texts(whole@) =~= dated_head(now as nat));
    let ghost tail = texts(kept@);
    whole.append(&mut kept);
    assert(texts(whole@) =~= dated_head(now as nat) + tail);
    unlines_text(&whole)
}

// ---------------------------------------------------------------------------
// Laws
// ---------------------------------------------------------------------------
/// A text that can stand for a client on a line of the list: it has no line feed, and does not
/// start with white space or as a comment does.
pub open spec fn is_listable(ip: Seq<char>) -> bool {
    &&& !ip.contains('\n')
    &&& ip.len() > 0 ==> !is_white(ip[0]) && ip[0] != '#'
}

/// What the line of a ban says.
proof fn lemma_ban_line(ip: Seq<char>, now: nat)
    requires
        is_listable(ip),
        now <= u64::MAX,
    ensures
        read_line(ban_line(ip, now)) == BanLine::Since(ip, Some(now)),
        !ban_line(ip, now).contains('\n'),
        strip_return(ban_line(ip, now)) == ban_line(ip, now),
{
    reveal_strlit(":");
    let line = ban_line(ip, now);
    let digits = decimal(now);
    lemma_decimal(now);
    assert(line[0] == if ip.len() > 0 {
        ip[0]
    } else {
        ':'
    });
    assert(line.last() == digits.last());
    assert(is_digit(digits[digits.len() - 1]));
    assert(!is_white(line.last()));
    assert(trim_start(line) == line);
    assert(trim_end(line) == line);
    assert(!line.contains('\n')) by {
        if line.contains('\n') {
            let k = choose|k: int| 0 <= k < line.len() && line[k] == '\n';
            if k < ip.len() {
                assert(ip[k] == '\n');
            } else if k > ip.len() {
                assert(is_digit(digits[k - ip.len() - 1]));
            }
        }
    }
    assert(line[ip.len() as int] == ':');
    lemma_last_index(line, ':', ip.len() as int);
    assert(line.take(ip.len() as int) =~= ip);
    assert(line.skip(ip.len() as int + 1) =~= digits);
    assert(digits[0] != '+') by {
        assert(is_digit(digits[0]));
    }
}

/// The last position of a character, after which it does not stand.
proof fn lemma_last_index(s: Seq<char>, c: char, i: int)
    requires
        0 <= i < s.len(),
        s[i] == c,
        forall|k: int| i < k < s.len() ==> s[k] != c,
    ensures
        crate::text::last_index(s, c) == Some(i),
    decreases s.len(),
{
    if i < s.len() - 1 {
        lemma_last_index(s.drop_last(), c, i);
    }
}

proof fn lemma_lines_without_feeds(list: Seq<char>)
    ensures
        forall|i: int|
            0 <= i < lines_seq(list).len() ==> !(#[trigger] lines_seq(list)[i]).contains('\n'),
{
    lemma_split(list, '\n');
    let pieces = split_seq(list, '\n');
    assert forall|i: int| 0 <= i < lines_seq(list).len() implies !(#[trigger] lines_seq(
        list,
    )[i]).contains('\n') by {
        assert(!pieces[i].contains('\n'));
        let l = lines_seq(list)[i];
        if l.contains('\n') {
            let k = choose|k: int| 0 <= k < l.len() && l[k] == '\n';
            assert(pieces[i][k] == '\n');
        }
    }
}

/// What the lines say after a ban was added: the line of the ban stands at `at`, and all others say
/// what they said before.
proof fn lemma_with_ban(list: Seq<char>, ip: Seq<char>, banned_at: nat) -> (at: int)
    requires
        is_listable(ip),
        banned_at <= u64::MAX,
    ensures
        ({
            let all = lines_seq(list);
            let after = lines_seq(with_ban(list, ip, banned_at));
            &&& 0 <= at <= all.len()
            &&& at < all.len() ==> names(all[at], ip)
            &&& after.len() == if at < all.len() {
                all.len()
            } else {
                all.len() + 1
            }
            &&& after[at] == ban_line(ip, banned_at)
            &&& forall|k: int|
                0 <= k < all.len() && k != at ==> read_line(#[trigger] after[k]) == read_line(
                    all[k],
                )
        }),
{
    let line = ban_line(ip, banned_at);
    lemma_ban_line(ip, banned_at);
    let all = lines_seq(list);
    let after = with_ban(list, ip, banned_at);
    lemma_first_naming(all, ip);
    lemma_lines_without_feeds(list);
    match first_naming(all, ip) {
        Some(i) => {
            let put = all.update(i, line);
            assert forall|k: int| 0 <= k < put.len() implies !(#[trigger] put[k]).contains(
                '\n',
            ) by {
                if k != i {
                    assert(put[k] == all[k]);
                }
            }
            lemma_unlines(put);
            assert forall|k: int| 0 <= k < all.len() && k != i implies read_line(
                #[trigger] lines_seq(after)[k],
            ) == read_line(all[k]) by {
                lemma_strip_return(all[k]);
            }
            assert(lines_seq(after)[i] == line);
            i
        },
        None => {
            let head = ended(list);
            let pieces = split_seq(list, '\n');
            lemma_split(list, '\n');
            let started = split_seq(head, '\n');
            lemma_split(head, '\n');
            assert(list.len() > 0 && list.last() != '\n' ==> head.drop_last() =~= list);
            assert(started.last().len() == 0);
            lemma_split_extend(head, line, '\n');
            assert(started.last() + line =~= line);
            let grown = head + line;
            assert(after.drop_last() =~= grown);
            assert(after.last() == '\n');
            let now_pieces = split_seq(after, '\n');
            let n = started.len() - 1;
            assert(now_pieces =~= started.drop_last().push(line).push(Seq::<char>::empty()));
            assert(now_pieces.drop_last() =~= started.drop_last().push(line));
            assert(lines_seq(after).len() == n + 1);
            assert(lines_seq(after)[n] == line);
            assert(all.len() == n);
            assert forall|k: int| 0 <= k < n implies read_line(#[trigger] lines_seq(after)[k])
                == read_line(all[k]) by {
                assert(lines_seq(after)[k] == strip_return(started[k]));
                assert(started[k] == pieces[k]);
                lemma_strip_return(pieces[k]);
            }
            n
        },
    }
}

/// A client that was banned stays banned for the whole time of a ban, whatever the list held.
pub proof fn law_banned_client_is_blocked(
    list: Seq<char>,
    ip: Seq<char>,
    banned_at: nat,
    now: int,
    ban_secs: int,
)
    requires
        is_listable(ip),
        banned_at <= u64::MAX,
        banned_at <= now < banned_at + ban_secs,
    ensures
        bans(with_ban(list, ip, banned_at), ip, now, ban_secs),
{
    let at = lemma_with_ban(list, ip, banned_at);
    lemma_ban_line(ip, banned_at);
    assert(line_bans(lines_seq(with_ban(list, ip, banned_at))[at], ip, now, ban_secs));
}

/// The ban of one client neither lifts nor adds the ban of another.
pub proof fn law_bans_stand_apart(
    list: Seq<char>,
    ip: Seq<char>,
    other: Seq<char>,
    banned_at: nat,
    now: int,
    ban_secs: int,
)
    requires
        is_listable(ip),
        other != ip,
        banned_at <= u64::MAX,
    ensures
        bans(with_ban(list, ip, banned_at), other, now, ban_secs) == bans(
            list,
            other,
            now,
            ban_secs,
        ),
{
    let all = lines_seq(list);
    let after = lines_seq(with_ban(list, ip, banned_at));
    let at = lemma_with_ban(list, ip, banned_at);
    lemma_ban_line(ip, banned_at);
    assert(!line_bans(after[at], other, now, ban_secs));
    if bans(list, other, now, ban_secs) {
        let k = choose|k: int|
            0 <= k < all.len() && line_bans(#[trigger] all[k], other, now, ban_secs);
        assert(k != at);
        assert(line_bans(after[k], other, now, ban_secs));
    }
    if bans(with_ban(list, ip, banned_at), other, now, ban_secs) {
        let k = choose|k: int|
            0 <= k < after.len() && line_bans(#[trigger] after[k], other, now, ban_secs);
        assert(k != at);
        assert(line_bans(all[k], other, now, ban_secs));
    }
}

/// A list bans a client since a moment, at another moment.
pub open spec fn bans_since(list: Seq<char>, ip: Seq<char>, now: int, ban_secs: int) -> bool {
    exists|i: int|
        0 <= i < lines_seq(list).len() && read_line(#[trigger] lines_seq(list)[i]) is Since
            && line_bans(lines_seq(list)[i], ip, now, ban_secs)
}

/// A line is one of those that are kept.
spec fn comes_from(line: Seq<char>, all: Seq<Seq<char>>, now: int, ban_secs: int) -> bool {
    exists|i: int|
        0 <= i < all.len() && is_kept(all[i], now, ban_secs) && line == trimmed(#[trigger] all[i])
}

proof fn lemma_kept_lines(all: Seq<Seq<char>>, now: int, ban_secs: int)
    ensures
        forall|j: int|
            0 <= j < kept_lines(all, now, ban_secs).len() ==> comes_from(
                #[trigger] kept_lines(all, now, ban_secs)[j],
                all,
                now,
                ban_secs,
            ),
        forall|i: int|
            0 <= i < all.len() && is_kept(#[trigger] all[i], now, ban_secs) ==> kept_lines(
                all,
                now,
                ban_secs,
            ).contains(trimmed(all[i])),
    decreases all.len(),
{
    if all.len() > 0 {
        let init = all.drop_last();
        let kept = kept_lines(all, now, ban_secs);
        let was = kept_lines(init, now, ban_secs);
        lemma_kept_lines(init, now, ban_secs);
        assert forall|j: int| 0 <= j < kept.len() implies comes_from(
            #[trigger] kept[j],
            all,
            now,
            ban_secs,
        ) by {
            if j < was.len() {
                assert(kept[j] == was[j]);
                assert(comes_from(was[j], init, now, ban_secs));
                let i = choose|i: int|
                    0 <= i < init.len() && is_kept(init[i], now, ban_secs) && was[j] == trimmed(
                        #[trigger] init[i],
                    );
                assert(all[i] == init[i]);
            } else {
                assert(all[all.len() - 1] == all.last());
            }
        }
        assert forall|i: int|
            0 <= i < all.len() && is_kept(#[trigger] all[i], now, ban_secs) implies kept.contains(
            trimmed(all[i]),
        ) by {
            if i < init.len() {
                assert(init[i] == all[i]);
                assert(was.contains(trimmed(init[i])));
                let j = choose|j: int| 0 <= j < was.len() && was[j] == trimmed(init[i]);
                assert(kept[j] == was[j]);
            } else {
                assert(kept[kept.len() - 1] == trimmed(all[i]));
            }
        }
    }
}

/// The lines of a cleaned list.
proof fn lemma_cleaned_lines(list: Seq<char>, now: nat, ban_secs: int)
    ensures
        ({
            let kept = kept_lines(lines_seq(list), now as int, ban_secs);
            lines_seq(cleaned(list, now, ban_secs)) == if kept.len() == 0 {
                list_head().push(Seq::empty())
            } else {
                dated_head(now) + kept
            }
        }),
        forall|i: int|
            0 <= i < dated_head(now).len() ==> read_line(
                #[trigger] dated_head(now)[i],
            ) is Nothing,
        forall|i: int|
            0 <= i < 3 ==> read_line(
                #[trigger] list_head().push(Seq::<char>::empty())[i],
            ) is Nothing,
        forall|j: int|
            0 <= j < kept_lines(lines_seq(list), now as int, ban_secs).len() ==> trimmed(
                #[trigger] kept_lines(lines_seq(list), now as int, ban_secs)[j],
            ) == kept_lines(lines_seq(list), now as int, ban_secs)[j],
{
    reveal_strlit("# IP Ban List - Auto-generated");
    reveal_strlit("# Format: IP_ADDRESS:TIMESTAMP");
    reveal_strlit("# Updated at: ");
    let kept = kept_lines(lines_seq(list), now as int, ban_secs);
    let note = "# Updated at: "@ + decimal(now);
    let nothing = Seq::<char>::empty();
    lemma_decimal(now);
    lemma_comment(list_head()[0]);
    lemma_comment(list_head()[1]);
    assert(!note.contains('\n')) by {
        if note.contains('\n') {
            let k = choose|k: int| 0 <= k < note.len() && note[k] == '\n';
            if k >= 14 {
                assert(is_digit(decimal(now)[k - 14]));
            }
        }
    }
    assert(is_digit(decimal(now)[decimal(now).len() - 1]));
    assert(!is_white(note.last()));
    lemma_comment(note);
    assert(trimmed(nothing) =~= nothing);
    let head = dated_head(now);
    assert(head =~= seq![list_head()[0], list_head()[1], note, nothing]);
    let short = list_head().push(nothing);
    assert(short =~= seq![list_head()[0], list_head()[1], nothing]);
    assert(!list_head()[0].contains('\n'));
    assert(!list_head()[1].contains('\n'));
    assert(!nothing.contains('\n'));
    let strip = |p: Seq<char>| strip_return(p);
    lemma_lines_without_feeds(list);
    lemma_kept_lines(lines_seq(list), now as int, ban_secs);
    assert forall|j: int| 0 <= j < kept.len() implies !(#[trigger] kept[j]).contains('\n')
        && trimmed(kept[j]) == kept[j] && strip_return(kept[j]) == kept[j] by {
        assert(comes_from(kept[j], lines_seq(list), now as int, ban_secs));
        let i = choose|i: int|
            0 <= i < lines_seq(list).len() && is_kept(lines_seq(list)[i], now as int, ban_secs)
                && kept[j] == trimmed(#[trigger] lines_seq(list)[i]);
        lemma_trimmed(lines_seq(list)[i]);
    }
    if kept.len() == 0 {
        lemma_unlines(short);
        assert(short.map_values(strip) =~= short);
    } else {
        let whole = head + kept;
        assert forall|i: int| 0 <= i < whole.len() implies !(#[trigger] whole[i]).contains(
            '\n',
        ) by {
            if i >= 4 {
                assert(whole[i] == kept[i - 4]);
            } else {
                assert(whole[i] == head[i]);
            }
        }
        lemma_unlines(whole);
        assert(whole.map_values(strip) =~= whole) by {
            assert forall|i: int| 0 <= i < whole.len() implies strip_return(#[trigger] whole[i])
                == whole[i] by {
                if i >= 4 {
                    assert(whole[i] == kept[i - 4]);
                } else {
                    assert(whole[i] == head[i]);
                }
            }
        }
    }
}

/// A line that starts with a number sign and does not end with white space says nothing.
proof fn lemma_comment(line: Seq<char>)
    requires
        line.len() > 0,
        line[0] == '#',
        !is_white(line.last()),
    ensures
        read_line(line) is Nothing,
        strip_return(line) == line,
{
    assert(!is_white('#'));
    assert(trim_start(line) == line);
    assert(trim_end(line) == line);
}

/// The removal of bans that are over changes nothing for anyone: whoever is banned since a moment
/// is banned by the cleaned list as long as before, and nobody else is banned by it.
pub proof fn law_cleaning_keeps_bans(
    list: Seq<char>,
    ip: Seq<char>,
    cleaned_at: nat,
    now: int,
    ban_secs: int,
)
    requires
        cleaned_at <= now,
    ensures
        bans(cleaned(list, cleaned_at, ban_secs), ip, now, ban_secs) <==> bans_since(
            list,
            ip,
            now,
            ban_secs,
        ),
{
    let all = lines_seq(list);
    let kept = kept_lines(all, cleaned_at as int, ban_secs);
    let after = cleaned(list, cleaned_at, ban_secs);
    let result = lines_seq(after);
    lemma_cleaned_lines(list, cleaned_at, ban_secs);
    lemma_kept_lines(all, cleaned_at as int, ban_secs);
    if bans(after, ip, now, ban_secs) {
        let n = choose|n: int|
            0 <= n < result.len() && line_bans(#[trigger] result[n], ip, now, ban_secs);
        if kept.len() == 0 {
            assert(read_line(list_head().push(Seq::<char>::empty())[n]) is Nothing);
        } else if n < 4 {
            assert(result[n] == dated_head(cleaned_at)[n]);
        } else {
            let j = n - 4;
            assert(result[n] == kept[j]);
            assert(comes_from(kept[j], all, cleaned_at as int, ban_secs));
            let i = choose|i: int|
                0 <= i < all.len() && is_kept(all[i], cleaned_at as int, ban_secs) && kept[j]
                    == trimmed(#[trigger] all[i]);
            assert(trimmed(kept[j]) == kept[j]);
            assert(read_line(kept[j]) == read_line(all[i]));
            assert(line_bans(all[i], ip, now, ban_secs));
        }
    }
    if bans_since(list, ip, now, ban_secs) {
        let i = choose|i: int|
            0 <= i < all.len() && read_line(#[trigger] all[i]) is Since && line_bans(
                all[i],
                ip,
                now,
                ban_secs,
            );
        assert(is_kept(all[i], cleaned_at as int, ban_secs));
        assert(kept.contains(trimmed(all[i])));
        let j = choose|j: int| 0 <= j < kept.len() && kept[j] == trimmed(all[i]);
        assert(trimmed(kept[j]) == kept[j]);
        assert(read_line(kept[j]) == read_line(all[i]));
        assert(result[j + 4] == kept[j]);
        assert(line_bans(result[j + 4], ip, now, ban_secs));
    }
}

/// A line with a client, a colon and a moment bans the client for the time of a ban from that
/// moment on and no longer, and nobody else.
pub proof fn law_dated_ban(
    ip: Seq<char>,
    other: Seq<char>,
    banned_at: nat,
    now: int,
    ban_secs: int,
)
    requires
        is_listable(ip),
        banned_at <= u64::MAX,
        0 < ban_secs,
    ensures
        line_bans(ip + ":"@ + decimal(banned_at), ip, now, ban_secs) <==> now < banned_at
            + ban_secs,
        other != ip ==> !line_bans(ip + ":"@ + decimal(banned_at), other, now, ban_secs),
{
    lemma_ban_line(ip, banned_at);
}

/// A line with just a client, without a colon, bans the client at all times, and nobody else.
pub proof fn law_ban_for_good(ip: Seq<char>, other: Seq<char>, now: int, ban_secs: int)
    requires
        ip.len() > 0,
        ip[0] != '#',
        !is_white(ip[0]),
        !is_white(ip.last()),
        !ip.contains(':'),
    ensures
        line_bans(ip, ip, now, ban_secs),
        other != ip ==> !line_bans(ip, other, now, ban_secs),
{
    assert(trim_start(ip) == ip);
    assert(trim_end(ip) == ip);
    law_split_last(Seq::empty(), ':', ip);
}

/// A comment and an empty line ban nobody; white space around a line does not count.
pub proof fn law_comments_ban_nobody(
    text: Seq<char>,
    line: Seq<char>,
    a: Seq<char>,
    b: Seq<char>,
    ip: Seq<char>,
    now: int,
    ban_secs: int,
)
    requires
        forall|i: int| 0 <= i < a.len() ==> is_white(#[trigger] a[i]),
        forall|i: int| 0 <= i < b.len() ==> is_white(#[trigger] b[i]),
        line.len() > 0 ==> !is_white(line[0]) && !is_white(line.last()),
    ensures
        !line_bans(seq!['#'] + text, ip, now, ban_secs),
        !line_bans(Seq::empty(), ip, now, ban_secs),
        line_bans(a + line + b, ip, now, ban_secs) <==> line_bans(line, ip, now, ban_secs),
{
    let comment = seq!['#'] + text;
    assert(comment[0] == '#');
    assert(!is_white('#'));
    assert(trim_start(comment) == comment);
    lemma_end_keeps_start(comment);
    law_trimmed_of_space(a, line, b);
    law_trimmed_of_space(Seq::empty(), line, Seq::empty());
    assert(Seq::<char>::empty() + line + Seq::<char>::empty() =~= line);
    assert(trimmed(Seq::<char>::empty()) =~= Seq::<char>::empty());
}

proof fn lemma_end_keeps_start(s: Seq<char>)
    requires
        s.len() > 0,
        !is_white(s[0]),
    ensures
        trim_end(s).len() > 0,
        trim_end(s)[0] == s[0],
    decreases s.len(),
{
    if is_white(s.last()) {
        assert(s.len() > 1);
        lemma_end_keeps_start(s.drop_last());
    }
}

} // verus!
