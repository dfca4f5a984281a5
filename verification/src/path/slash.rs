//! Texts whose steps stand between slashes.
use crate::text::{
    law_split_joined, lemma_split, lemma_split_append, opt_text, rsplit_once, same_text, split, split_last,
    split_seq, texts, texts_push, to_chars, to_text,
};
use vstd::prelude::*;
use vstd::string::*;

verus! {

/// A path that starts at the root.
pub open spec fn is_rooted(p: Seq<char>) -> bool {
    p.len() > 0 && p[0] == '/'
}

/// A piece that names a step: not empty, and not the current directory.
pub open spec fn is_step(piece: Seq<char>) -> bool {
    piece.len() > 0 && piece != seq!['.']
}

/// The steps among the pieces, in order.
pub open spec fn steps(pieces: Seq<Seq<char>>) -> Seq<Seq<char>>
    decreases pieces.len(),
{
    if pieces.len() == 0 {
        Seq::empty()
    } else if is_step(pieces.last()) {
        steps(pieces.drop_last()).push(pieces.last())
    } else {
        steps(pieces.drop_last())
    }
}

/// What a path starts at: the root, the current directory where the path names it, or nothing.
pub open spec fn start_component(p: Seq<char>) -> Seq<Seq<char>> {
    if is_rooted(p) {
        seq![seq!['/']]
    } else if split_seq(p, '/')[0] == seq!['.'] {
        seq![seq!['.']]
    } else {
        Seq::empty()
    }
}

/// The components of a path. Repeated slashes and inner `.` pieces do not count.
pub open spec fn slash_components(p: Seq<char>) -> Seq<Seq<char>> {
    start_component(p) + steps(split_seq(p, '/'))
}

/// Where components lead from a directory, with each `..` taken as a step back; `None` where they
/// leave the directory on the way.
pub open spec fn resolved(comps: Seq<Seq<char>>) -> Option<Seq<Seq<char>>>
    decreases comps.len(),
{
    if comps.len() == 0 {
        Some(Seq::empty())
    } else {
        match resolved(comps.drop_last()) {
            None => None,
            Some(r) => if comps.last() == seq!['.'] {
                Some(r)
            } else if comps.last() == seq!['/'] || (comps.last() == seq!['.', '.'] && r.len()
                == 0) {
                None
            } else if comps.last() == seq!['.', '.'] {
                Some(r.drop_last())
            } else {
                Some(r.push(comps.last()))
            },
        }
    }
}

/// Components that stay in a directory lead to a path without steps back, and so does each
/// beginning of them.
pub proof fn lemma_resolved(comps: Seq<Seq<char>>)
    requires
        resolved(comps) is Some,
    ensures
        forall|i: int|
            0 <= i < resolved(comps)->0.len() ==> (#[trigger] resolved(comps)->0[i]) != seq![
                '.',
                '.',
            ] && resolved(comps)->0[i] != seq!['/'],
        forall|n: int| 0 <= n <= comps.len() ==> resolved(#[trigger] comps.take(n)) is Some,
    decreases comps.len(),
{
    assert(comps.take(comps.len() as int) =~= comps);
    if comps.len() > 0 {
        let init = comps.drop_last();
        lemma_resolved(init);
        assert forall|n: int| 0 <= n <= comps.len() implies resolved(
            #[trigger] comps.take(n),
        ) is Some by {
            if n < comps.len() {
                assert(init.take(n) =~= comps.take(n));
            }
        }
    }
}

/// The last component, where it is a name.
pub open spec fn slash_file_name(p: Seq<char>) -> Option<Seq<char>> {
    let comps = slash_components(p);
    if comps.len() == 0 || comps.last() == seq!['/'] || comps.last() == seq!['.'] || comps.last()
        == seq!['.', '.'] {
        None
    } else {
        Some(comps.last())
    }
}

/// A file name's stem and extension. A name that only starts with a dot has no extension.
pub open spec fn stem_and_extension(name: Seq<char>) -> (Seq<char>, Option<Seq<char>>) {
    match split_last(name, '.') {
        Some(parts) => if parts.0.len() == 0 {
            (name, None)
        } else {
            (parts.0, Some(parts.1))
        },
        None => (name, None),
    }
}

/// A path has a parent where its last component is not the root.
pub open spec fn has_slash_parent(p: Seq<char>) -> bool {
    slash_components(p).len() > 0 && slash_components(p).last() != seq!['/']
}

/// `q` is the parent of `p`: the shortest beginning of `p` that has all of its components but
/// the last.
pub open spec fn is_parent_of(q: Seq<char>, p: Seq<char>) -> bool {
    &&& q.is_prefix_of(p)
    &&& slash_components(q) == slash_components(p).drop_last()
    &&& forall|n: int|
        0 <= n < q.len() ==> slash_components(#[trigger] p.take(n)) != slash_components(p).drop_last()
}

/// The parent of a path, where it has one.
pub open spec fn slash_parent(p: Seq<char>) -> Option<Seq<char>> {
    if has_slash_parent(p) {
        Some(choose|q: Seq<char>| is_parent_of(q, p))
    } else {
        None
    }
}

/// A path has one parent at most.
proof fn lemma_one_parent(q: Seq<char>, r: Seq<char>, p: Seq<char>)
    requires
        is_parent_of(q, p),
        is_parent_of(r, p),
    ensures
        q == r,
{
    assert(p.take(q.len() as int) =~= q);
    assert(p.take(r.len() as int) =~= r);
    if q.len() < r.len() {
        assert(slash_components(p.take(q.len() as int)) != slash_components(p).drop_last());
    }
    if r.len() < q.len() {
        assert(slash_components(p.take(r.len() as int)) != slash_components(p).drop_last());
    }
}

pub(crate) fn rooted(p: &str) -> (r: bool)
    ensures
        r == is_rooted(p@),
{
    let chars = to_chars(p);
    chars.len() > 0 && chars[0] == '/'
}

pub(crate) fn is_char(s: &str, c: char) -> (r: bool)
    ensures
        r == (s@ == seq![c]),
{
    let chars = to_chars(s);
    let r = chars.len() == 1 && chars[0] == c;
    assert(r ==> s@ =~= seq![c]);
    assert(s@ == seq![c] ==> s@.len() == 1 && s@[0] == c);
    r
}

pub(crate) fn slash_pieces(p: &str) -> (r: Vec<String>)
    ensures
        texts(r@) == slash_components(p@),
{
    broadcast use texts_push;

    let pieces = split(p, '/');
    let mut r: Vec<String> = Vec::new();
    assert(texts(r@) =~= Seq::<Seq<char>>::empty());
    if rooted(p) {
        let mut root = String::new();
        root.push('/');
        assert(root@ =~= seq!['/']);
        r.push(root);
        assert(texts(r@) =~= seq![seq!['/']]);
    } else if is_char(pieces[0].as_str(), '.') {
        assert(split_seq(p@, '/')[0] == pieces@[0]@);
        r.push(pieces[0].clone());
        assert(texts(r@) =~= seq![seq!['.']]);
    } else {
        assert(split_seq(p@, '/')[0] == pieces@[0]@);
    }
    let ghost all = split_seq(p@, '/');
    let ghost start = start_component(p@);
    let mut i: usize = 0;
    assert(start + steps(all.take(0)) =~= start);
    while i < pieces.len()
        invariant
            i <= pieces.len(),
            all == texts(pieces@),
            texts(r@) == start + steps(all.take(i as int)),
        decreases pieces.len() - i,
    {
        proof {
            assert(all.take(i + 1).drop_last() =~= all.take(i as int));
            assert(all.take(i + 1).last() == pieces@[i as int]@);
        }
        if !pieces[i].as_str().is_empty() && !is_char(pieces[i].as_str(), '.') {
            let ghost before = texts(r@);
            r.push(pieces[i].clone());
            assert(before.push(pieces@[i as int]@) =~= start + steps(all.take(i as int)).push(
                pieces@[i as int]@,
            ));
        }
        i += 1;
    }
    assert(all.take(all.len() as int) =~= all);
    r
}

/// The texts of two lists agree on the whole of the first.
pub(crate) fn leads(short: &Vec<String>, long: &Vec<String>) -> (r: bool)
    ensures
        r == texts(short@).is_prefix_of(texts(long@)),
{
    if short.len() > long.len() {
        return false;
    }
    let mut i: usize = 0;
    while i < short.len()
        invariant
            i <= short.len() <= long.len(),
            forall|k: int| 0 <= k < i ==> short@[k]@ == long@[k]@,
        decreases short.len() - i,
    {
        if !same_text(short[i].as_str(), long[i].as_str()) {
            assert(texts(short@)[i as int] != texts(long@).subrange(0, short@.len() as int)[i as int]);
            return false;
        }
        i += 1;
    }
    assert(texts(short@) =~= texts(long@).subrange(0, short@.len() as int));
    true
}

pub(crate) fn is_up(s: &str) -> (r: bool)
    ensures
        r == (s@ == seq!['.', '.']),
{
    let chars = to_chars(s);
    let r = chars.len() == 2 && chars[0] == '.' && chars[1] == '.';
    assert(r ==> s@ =~= seq!['.', '.']);
    assert(s@ == seq!['.', '.'] ==> s@.len() == 2 && s@[0] == '.' && s@[1] == '.');
    r
}

pub(crate) fn slash_name(p: &str) -> (r: Option<String>)
    ensures
        opt_text(r) == slash_file_name(p@),
{
    let comps = slash_pieces(p);
    if comps.len() == 0 {
        return None;
    }
    let last = comps[comps.len() - 1].clone();
    assert(slash_components(p@).last() == last@);
    if is_char(last.as_str(), '/') || is_char(last.as_str(), '.') || is_up(last.as_str()) {
        None
    } else {
        Some(last)
    }
}

pub(crate) fn split_name(name: String) -> (r: (String, Option<String>))
    ensures
        (r.0@, opt_text(r.1)) == stem_and_extension(name@),
{
    match rsplit_once(name.as_str(), '.') {
        Some(parts) => if parts.0.as_str().is_empty() {
            (name, None)
        } else {
            (parts.0, Some(parts.1))
        },
        None => (name, None),
    }
}

/// A path without characters has no components.
proof fn lemma_components_empty()
    ensures
        slash_components(Seq::<char>::empty()) == Seq::<Seq<char>>::empty(),
{
    let p = Seq::<char>::empty();
    lemma_split(p, '/');
    assert(split_seq(p, '/').drop_last() =~= Seq::<Seq<char>>::empty());
    reveal_with_fuel(steps, 2);
    assert(!is_step(split_seq(p, '/').last()));
    assert(split_seq(p, '/')[0].len() != seq!['.'].len());
    assert(slash_components(p) =~= Seq::<Seq<char>>::empty());
}

/// A name below a directory is the name of the file.
pub proof fn lemma_file_name_below(dir: Seq<char>, name: Seq<char>)
    requires
        name.len() > 0,
        !name.contains('/'),
        name != seq!['.'],
        name != seq!['.', '.'],
    ensures
        slash_file_name(dir + seq!['/'] + name) == Some(name),
{
    let p = dir + seq!['/'] + name;
    lemma_split_append(dir, '/', name);
    assert(dir.push('/') + name =~= p);
    let pieces = split_seq(p, '/');
    assert(pieces.last() == name);
    assert(slash_components(p).last() == name);
    assert(name != seq!['/']) by {
        if name == seq!['/'] {
            assert(name[0] == '/');
        }
    }
}

/// How one more character changes the components.
proof fn lemma_components_push(q: Seq<char>, c: char)
    ensures
        ({
            let l = split_seq(q, '/').last();
            let now = slash_components(q.push(c));
            let was = slash_components(q);
            if c == '/' {
                now == if q.len() == 0 {
                    seq![seq!['/']]
                } else {
                    was
                }
            } else if l.len() == 0 {
                now == if c == '.' && q.len() > 0 {
                    was
                } else {
                    was.push(seq![c])
                }
            } else if q == seq!['.'] {
                now == seq![seq!['.', c]]
            } else if l == seq!['.'] {
                now == was.push(l.push(c))
            } else {
                &&& was.len() > 0
                &&& was.last() == l
                &&& !l.contains('/')
                &&& now == was.drop_last().push(l.push(c))
            }
        }),
{
    let s = q.push(c);
    let before = split_seq(q, '/');
    let after = split_seq(s, '/');
    let l = before.last();
    lemma_split(q, '/');
    lemma_split(s, '/');
    assert(s.drop_last() =~= q);
    assert(s.last() == c);
    let was = slash_components(q);
    let now = slash_components(s);
    reveal_with_fuel(steps, 2);
    assert(before =~= before.drop_last().push(l));
    if q.len() > 0 {
        assert(s[0] == q[0]);
    }
    if c == '/' {
        assert(after.drop_last() =~= before);
        assert(steps(after) == steps(before));
        assert(after[0] == before[0]);
        if q.len() == 0 {
            lemma_components_empty();
            assert(q =~= Seq::<char>::empty());
            assert(steps(before) =~= Seq::<Seq<char>>::empty());
            assert(now =~= seq![seq!['/']]);
        }
    } else {
        let grown = l.push(c);
        assert(after.drop_last() =~= before.drop_last());
        assert(after.last() == grown);
        let init = before.drop_last();
        if init.len() > 0 {
            assert(after[0] == init[0]);
            assert(before[0] == init[0]);
            assert(start_component(s) == start_component(q));
        } else {
            assert(steps(init) =~= Seq::<Seq<char>>::empty());
            assert(before[0] == l);
            assert(after[0] == grown);
            assert(l == q);
        }
        if l.len() == 0 {
            assert(grown =~= seq![c]);
            assert(!is_step(l));
            if q.len() == 0 {
                lemma_components_empty();
                assert(q =~= Seq::<char>::empty());
                assert(s[0] == c);
                if c == '.' {
                    assert(now =~= seq![seq!['.']]);
                } else {
                    assert(grown[0] != '.');
                    assert(grown != seq!['.']);
                    assert(now =~= seq![seq![c]]);
                }
                assert(now =~= was.push(seq![c]));
            } else {
                assert(init.len() > 0);
                if c == '.' {
                    assert(!is_step(grown));
                } else {
                    assert(grown[0] != '.');
                    assert(grown != seq!['.']);
                    assert(now =~= was.push(seq![c]));
                }
            }
        } else {
            assert(grown.len() >= 2);
            assert(is_step(grown));
            if q == seq!['.'] {
                lemma_only_piece(q);
                assert(init.len() == 0);
                assert(grown =~= seq!['.', c]);
                assert(now =~= seq![seq!['.', c]]);
            } else if l == seq!['.'] {
                assert(init.len() > 0);
                assert(now =~= was.push(grown));
            } else {
                assert(is_step(l));
                assert(before[before.len() - 1] == l);
                assert(was =~= start_component(q) + steps(init).push(l));
                if init.len() == 0 {
                    assert(start_component(q) == start_component(s));
                }
                assert(now =~= was.drop_last().push(grown));
            }
        }
    }
}

/// A text without the separator is its only piece.
proof fn lemma_only_piece(q: Seq<char>)
    requires
        q == seq!['.'],
    ensures
        split_seq(q, '/').len() == 1,
{
    reveal_with_fuel(split_seq, 2);
    assert(q.drop_last() =~= Seq::<char>::empty());
}

/// Where the last component of a beginning of `p` is not the root, a shorter beginning has the
/// other components.
proof fn lemma_parent_exists(p: Seq<char>, n: int)
    requires
        0 <= n <= p.len(),
        has_slash_parent(p.take(n)),
    ensures
        exists|m: int|
            0 <= m < n && slash_components(#[trigger] p.take(m)) == slash_components(
                p.take(n),
            ).drop_last(),
    decreases n,
{
    if n == 0 {
        lemma_components_empty();
        assert(p.take(0) =~= Seq::<char>::empty());
    } else {
        let q = p.take(n - 1);
        let c = p[n - 1];
        let was = slash_components(q);
        let now = slash_components(p.take(n));
        let l = split_seq(q, '/').last();
        assert(p.take(n) =~= q.push(c));
        lemma_components_push(q, c);
        if c == '/' {
            if q.len() == 0 {
                assert(now.last() == seq!['/']);
            } else {
                lemma_parent_exists(p, n - 1);
            }
        } else if l.len() == 0 {
            if c == '.' && q.len() > 0 {
                lemma_parent_exists(p, n - 1);
            } else {
                assert(now.drop_last() =~= was);
            }
        } else if q == seq!['.'] {
            lemma_components_empty();
            assert(p.take(0) =~= Seq::<char>::empty());
            assert(now.drop_last() =~= Seq::<Seq<char>>::empty());
            assert(slash_components(p.take(0)) == now.drop_last());
        } else if l == seq!['.'] {
            assert(now.drop_last() =~= was);
        } else {
            if l == seq!['/'] {
                assert(l[0] == '/');
                assert(l.contains('/'));
            }
            lemma_parent_exists(p, n - 1);
            assert(now.drop_last() =~= was.drop_last());
        }
    }
}

pub(crate) fn slash_above(p: &str) -> (r: Option<String>)
    ensures
        match r {
            Some(q) => has_slash_parent(p@) && is_parent_of(q@, p@),
            None => !has_slash_parent(p@),
        },
        opt_text(r) == slash_parent(p@),
{
    let comps = slash_pieces(p);
    if comps.len() == 0 || is_char(comps[comps.len() - 1].as_str(), '/') {
        assert(comps.len() > 0 ==> slash_components(p@).last() == comps@.last()@);
        return None;
    }
    assert(slash_components(p@).last() == comps@.last()@);
    let mut wanted = comps;
    wanted.pop();
    assert(texts(wanted@) =~= slash_components(p@).drop_last());
    let chars = to_chars(p);
    assert(p@.take(p@.len() as int) =~= p@);
    proof {
        lemma_parent_exists(p@, p@.len() as int);
    }
    let mut n: usize = 0;
    while n < chars.len()
        invariant
            chars@ == p@,
            n <= chars.len(),
            has_slash_parent(p@),
            texts(wanted@) == slash_components(p@).drop_last(),
            exists|m: int|
                0 <= m < p@.len() && slash_components(#[trigger] p@.take(m)) == slash_components(
                    p@,
                ).drop_last(),
            forall|m: int|
                0 <= m < n ==> slash_components(#[trigger] p@.take(m)) != slash_components(
                    p@,
                ).drop_last(),
        decreases chars.len() - n,
    {
        let q = to_text(&chars, 0, n);
        assert(q@ =~= p@.take(n as int));
        let found = slash_pieces(q.as_str());
        if found.len() == wanted.len() && leads(&found, &wanted) {
            assert(texts(found@) =~= texts(wanted@));
            proof {
                assert(is_parent_of(q@, p@));
                lemma_one_parent(q@, choose|x: Seq<char>| is_parent_of(x, p@), p@);
            }
            return Some(q);
        }
        assert(slash_components(q@) != slash_components(p@).drop_last()) by {
            if texts(found@) == texts(wanted@) {
                assert(found@.len() == texts(found@).len());
                assert(wanted@.len() == texts(wanted@).len());
                assert(texts(found@) =~= texts(wanted@).subrange(0, found@.len() as int));
            }
        }
        n += 1;
    }
    None
}

/// A slash alone is the root, which has nothing above it.
pub proof fn lemma_root()
    ensures
        slash_components(seq!['/']) == seq![seq!['/']],
        slash_parent(seq!['/']) is None,
{
    let nothing = Seq::<char>::empty();
    lemma_components_push(nothing, '/');
    assert(nothing.push('/') =~= seq!['/']);
}

proof fn lemma_steps_add(a: Seq<Seq<char>>, b: Seq<Seq<char>>)
    ensures
        steps(a + b) == steps(a) + steps(b),
    decreases b.len(),
{
    if b.len() == 0 {
        assert(a + b =~= a);
        assert(steps(a) + steps(b) =~= steps(a));
    } else {
        lemma_steps_add(a, b.drop_last());
        assert((a + b).drop_last() =~= a + b.drop_last());
        assert((a + b).last() == b.last());
        assert(steps(a + b) =~= steps(a) + steps(b));
    }
}

/// A path with a slash and more after it has the components of the path, and then the steps of
/// what comes after the slash.
pub proof fn law_components_joined(a: Seq<char>, b: Seq<char>)
    requires
        a.len() > 0,
    ensures
        slash_components(a.push('/') + b) == slash_components(a) + steps(split_seq(b, '/')),
{
    let p = a.push('/') + b;
    law_split_joined(a, '/', b);
    lemma_split(a, '/');
    lemma_steps_add(split_seq(a, '/'), split_seq(b, '/'));
    assert(p[0] == a[0]);
    assert(split_seq(p, '/')[0] == split_seq(a, '/')[0]);
    assert(slash_components(p) =~= slash_components(a) + steps(split_seq(b, '/')));
}

/// The steps of a text are pieces of it that are neither empty nor `.` and hold no slash.
pub proof fn lemma_steps_of(pieces: Seq<Seq<char>>)
    requires
        forall|i: int| 0 <= i < pieces.len() ==> !(#[trigger] pieces[i]).contains('/'),
    ensures
        forall|i: int|
            0 <= i < steps(pieces).len() ==> pieces.contains(#[trigger] steps(pieces)[i])
                && steps(pieces)[i].len() > 0 && steps(pieces)[i] != seq!['.'] && steps(pieces)[i]
                != seq!['/'],
    decreases pieces.len(),
{
    if pieces.len() > 0 {
        let init = pieces.drop_last();
        assert forall|i: int| 0 <= i < init.len() implies !(#[trigger] init[i]).contains('/') by {
            assert(init[i] == pieces[i]);
        }
        lemma_steps_of(init);
        let all = steps(pieces);
        let some = steps(init);
        assert(pieces[pieces.len() - 1] == pieces.last());
        assert forall|i: int| 0 <= i < all.len() implies pieces.contains(#[trigger] all[i])
            && all[i].len() > 0 && all[i] != seq!['.'] && all[i] != seq!['/'] by {
            if i < some.len() {
                assert(all[i] == some[i]);
                let k = choose|k: int| 0 <= k < init.len() && init[k] == some[i];
                assert(pieces[k] == some[i]);
            } else if all[i] == seq!['/'] {
                assert(all[i][0] == '/');
                assert(pieces.last().contains('/'));
            }
        }
    }
}

/// Components without a step back lead to themselves.
pub proof fn lemma_resolved_as_they_are(comps: Seq<Seq<char>>)
    requires
        forall|i: int|
            0 <= i < comps.len() ==> (#[trigger] comps[i]) != seq!['.'] && comps[i] != seq!['/']
                && comps[i] != seq!['.', '.'],
    ensures
        resolved(comps) == Some(comps),
    decreases comps.len(),
{
    if comps.len() > 0 {
        let init = comps.drop_last();
        assert forall|i: int| 0 <= i < init.len() implies (#[trigger] init[i]) != seq!['.']
            && init[i] != seq!['/'] && init[i] != seq!['.', '.'] by {
            assert(init[i] == comps[i]);
        }
        lemma_resolved_as_they_are(init);
        assert(comps[comps.len() - 1] == comps.last());
        assert(init.push(comps.last()) =~= comps);
    } else {
        assert(comps =~= Seq::<Seq<char>>::empty());
    }
}

/// The more of a path there is, the more components it has.
proof fn lemma_components_grow(p: Seq<char>, m: int, n: int)
    requires
        0 <= m <= n <= p.len(),
    ensures
        slash_components(p.take(m)).len() <= slash_components(p.take(n)).len(),
    decreases n - m,
{
    if m < n {
        lemma_components_grow(p, m, n - 1);
        let q = p.take(n - 1);
        assert(p.take(n) =~= q.push(p[n - 1]));
        lemma_components_push(q, p[n - 1]);
        if q.len() == 0 {
            lemma_components_empty();
            assert(q =~= Seq::<char>::empty());
        }
        if q == seq!['.'] {
            lemma_components_empty();
            lemma_components_push(Seq::<char>::empty(), '.');
            assert(Seq::<char>::empty().push('.') =~= q);
            assert(split_seq(Seq::<char>::empty(), '/').last().len() == 0);
        }
    }
}

/// The parent of a file in a directory is the directory, where that is written with a name at its
/// end.
pub proof fn law_parent(up: Seq<char>, base: Seq<char>, name: Seq<char>)
    requires
        up.len() > 0,
        base.len() > 0,
        !base.contains('/'),
        base != seq!['.'],
        name.len() > 0,
        !name.contains('/'),
        name != seq!['.'],
    ensures
        slash_parent((up.push('/') + base).push('/') + name) == Some(up.push('/') + base),
{
    let dir = up.push('/') + base;
    let p = dir.push('/') + name;
    lemma_one_step(base);
    lemma_one_step(name);
    law_components_joined(dir, name);
    law_components_joined(up, base);
    let comps = slash_components(p);
    let above = slash_components(dir);
    assert(comps =~= above.push(name));
    assert(above =~= slash_components(up).push(base));
    assert(comps.drop_last() =~= above);
    assert(name != seq!['/']) by {
        if name == seq!['/'] {
            assert(name[0] == '/');
        }
    }
    assert(p.subrange(0, dir.len() as int) =~= dir);
    assert forall|n: int| 0 <= n < dir.len() implies slash_components(#[trigger] p.take(n))
        != above by {
        let q = p.take(n);
        if n <= up.len() + 1 {
            lemma_components_grow(p, n, up.len() as int + 1);
            assert(p.take(up.len() as int + 1) =~= up.push('/'));
            lemma_components_push(up, '/');
        } else {
            let part = base.take(n - up.len() - 1);
            assert(q =~= up.push('/') + part);
            assert(!part.contains('/')) by {
                if part.contains('/') {
                    let k = choose|k: int| 0 <= k < part.len() && part[k] == '/';
                    assert(base[k] == '/');
                }
            }
            law_components_joined(up, part);
            if part == seq!['.'] {
                lemma_no_step(part);
                assert(slash_components(q) =~= slash_components(up));
            } else {
                lemma_one_step(part);
                assert(slash_components(q).last() == part);
                assert(part.len() < base.len());
            }
        }
    }
    assert(is_parent_of(dir, p));
    lemma_one_parent(dir, choose|x: Seq<char>| is_parent_of(x, p), p);
}

proof fn lemma_one_piece(name: Seq<char>)
    requires
        !name.contains('/'),
    ensures
        split_seq(name, '/') == seq![name],
{
    let nothing = Seq::<char>::empty();
    lemma_split(nothing, '/');
    crate::text::lemma_split_extend(nothing, name, '/');
    assert(nothing + name =~= name);
    assert(split_seq(name, '/') =~= seq![name]);
}

proof fn lemma_one_step(name: Seq<char>)
    requires
        name.len() > 0,
        !name.contains('/'),
        name != seq!['.'],
    ensures
        steps(split_seq(name, '/')) == seq![name],
{
    lemma_one_piece(name);
    reveal_with_fuel(steps, 2);
    assert(seq![name].drop_last() =~= Seq::<Seq<char>>::empty());
    assert(steps(seq![name]) =~= seq![name]);
}

proof fn lemma_no_step(name: Seq<char>)
    requires
        name == seq!['.'],
    ensures
        steps(split_seq(name, '/')) == Seq::<Seq<char>>::empty(),
{
    assert(!name.contains('/'));
    lemma_one_piece(name);
    reveal_with_fuel(steps, 2);
    assert(seq![name].drop_last() =~= Seq::<Seq<char>>::empty());
}

/// A path that goes up first leaves where it starts, whatever follows.
pub proof fn lemma_leaves_at_once(rest: Seq<char>)
    ensures
        resolved(steps(split_seq(seq!['.', '.'].push('/') + rest, '/'))) is None,
        resolved(steps(split_seq(seq!['.', '.'], '/'))) is None,
{
    let up = seq!['.', '.'];
    law_split_joined(up, '/', rest);
    lemma_steps_add(split_seq(up, '/'), split_seq(rest, '/'));
    assert(!up.contains('/'));
    assert(up.len() == 2);
    lemma_one_step(up);
    let comps = steps(split_seq(up.push('/') + rest, '/'));
    assert(comps.take(1) =~= seq![up]);
    reveal_with_fuel(resolved, 2);
    assert(seq![up].drop_last() =~= Seq::<Seq<char>>::empty());
    assert(up != seq!['.']) by {
        assert(seq!['.'].len() == 1);
    }
    assert(up != seq!['/']) by {
        assert(seq!['/'].len() == 1);
    }
    assert(resolved(seq![up]) is None);
    if resolved(comps) is Some {
        lemma_resolved(comps);
        assert(resolved(comps.take(1)) is Some);
    }
}

/// A step and a step back lead to where one was, and what follows goes on from there.
pub proof fn lemma_step_and_back(a: Seq<char>, b: Seq<char>)
    requires
        a.len() > 0,
        !a.contains('/'),
        a != seq!['.'],
        a != seq!['.', '.'],
        b.len() > 0,
        !b.contains('/'),
        b != seq!['.'],
        b != seq!['.', '.'],
    ensures
        resolved(steps(split_seq(a.push('/') + (seq!['.', '.'].push('/') + b), '/'))) == Some(
            seq![b],
        ),
{
    let up = seq!['.', '.'];
    let tail = up.push('/') + b;
    assert(!up.contains('/'));
    assert(up.len() == 2);
    law_split_joined(a, '/', tail);
    law_split_joined(up, '/', b);
    lemma_steps_add(split_seq(a, '/'), split_seq(tail, '/'));
    lemma_steps_add(split_seq(up, '/'), split_seq(b, '/'));
    lemma_one_step(a);
    lemma_one_step(up);
    lemma_one_step(b);
    let comps = steps(split_seq(a.push('/') + tail, '/'));
    assert(comps =~= seq![a, up, b]);
    reveal_with_fuel(resolved, 4);
    let two = seq![a, up];
    let one = seq![a];
    assert(comps.drop_last() =~= two);
    assert(two.drop_last() =~= one);
    assert(one.drop_last() =~= Seq::<Seq<char>>::empty());
    lemma_no_slash(a);
    lemma_no_slash(b);
    assert(up != seq!['.']) by {
        assert(seq!['.'].len() == 1);
    }
    assert(up != seq!['/']) by {
        assert(seq!['/'].len() == 1);
    }
    assert(resolved(one) == Some(Seq::<Seq<char>>::empty().push(a)));
    assert(Seq::<Seq<char>>::empty().push(a).drop_last() =~= Seq::<Seq<char>>::empty());
    assert(resolved(two) == Some(Seq::<Seq<char>>::empty()));
    assert(Seq::<Seq<char>>::empty().push(b) =~= seq![b]);
}

proof fn lemma_no_slash(name: Seq<char>)
    requires
        !name.contains('/'),
    ensures
        name != seq!['/'],
{
    if name == seq!['/'] {
        assert(name[0] == '/');
    }
}

} // verus!
