//! The search for the finished package below a directory.
use crate::path::{
    extension, is_separator, is_verbatim, law_extension, law_extension_ends_the_name,
    law_file_name, path_extension, path_file_stem, prefix_len, System,
};
use crate::text::{opt_text, same_text, texts, texts_push};
use vstd::prelude::*;

verus! {

/// An entry of a directory.
#[derive(Debug)]
pub struct DirEntry {
    pub path: String,
    pub is_dir: bool,
}

pub struct EntryView {
    pub path: Seq<char>,
    pub is_dir: bool,
}

impl View for DirEntry {
    type V = EntryView;

    open spec fn view(&self) -> EntryView {
        EntryView { path: self.path@, is_dir: self.is_dir }
    }
}

pub open spec fn entries_view(entries: Seq<DirEntry>) -> Seq<EntryView> {
    Seq::new(entries.len(), |i: int| entries[i]@)
}

/// An entry that is a package.
pub open spec fn is_package(system: System, e: EntryView) -> bool {
    !e.is_dir && path_extension(system, e.path) == Some("apk"@)
}

/// The first package among the entries.
pub open spec fn first_package(system: System, entries: Seq<EntryView>) -> Option<Seq<char>>
    decreases entries.len(),
{
    if entries.len() == 0 {
        None
    } else if is_package(system, entries[0]) {
        Some(entries[0].path)
    } else {
        first_package(system, entries.drop_first())
    }
}

/// The directories among the entries, in order.
pub open spec fn dirs_among(entries: Seq<EntryView>) -> Seq<Seq<char>>
    decreases entries.len(),
{
    if entries.len() == 0 {
        seq![]
    } else if entries.last().is_dir {
        dirs_among(entries.drop_last()).push(entries.last().path)
    } else {
        dirs_among(entries.drop_last())
    }
}

/// A search, breadth first: the directories still to be listed, and the package that was found.
#[derive(Debug)]
pub struct PackageSearch {
    /// Whose paths are searched.
    pub system: System,
    pub waiting: Vec<String>,
    pub found: Option<String>,
}

pub struct SearchView {
    pub system: System,
    pub waiting: Seq<Seq<char>>,
    pub found: Option<Seq<char>>,
}

impl View for PackageSearch {
    type V = SearchView;

    open spec fn view(&self) -> SearchView {
        SearchView {
            system: self.system,
            waiting: texts(self.waiting@),
            found: opt_text(self.found),
        }
    }
}

impl SearchView {
    /// The search after the next directory was listed; a directory that cannot be listed counts
    /// as empty.
    pub open spec fn after(self, entries: Seq<EntryView>) -> SearchView {
        if self.found is Some || self.waiting.len() == 0 {
            self
        } else {
            match first_package(self.system, entries) {
                Some(p) => SearchView { waiting: seq![], found: Some(p), ..self },
                None => SearchView {
                    waiting: self.waiting.drop_first() + dirs_among(entries),
                    found: None,
                    ..self
                },
            }
        }
    }

    pub open spec fn after_all(self, listings: Seq<Seq<EntryView>>) -> SearchView
        decreases listings.len(),
    {
        if listings.len() == 0 {
            self
        } else {
            self.after_all(listings.drop_last()).after(listings.last())
        }
    }
}

proof fn lemma_no_package(system: System, entries: Seq<EntryView>)
    ensures
        first_package(system, entries) is None <==> forall|i: int|
            0 <= i < entries.len() ==> !is_package(system, #[trigger] entries[i]),
    decreases entries.len(),
{
    if entries.len() > 0 {
        let rest = entries.drop_first();
        lemma_no_package(system, rest);
        if first_package(system, entries) is None {
            assert forall|i: int| 0 <= i < entries.len() implies !is_package(
                system, #[trigger] entries[i],
            ) by {
                if i > 0 {
                    assert(rest[i - 1] == entries[i]);
                }
            }
        } else if !is_package(system, entries[0]) {
            let j = choose|j: int| 0 <= j < rest.len() && is_package(system, #[trigger] rest[j]);
            assert(is_package(system, entries[j + 1]));
        }
    }
}

proof fn lemma_first_package(system: System, entries: Seq<EntryView>, i: int)
    requires
        0 <= i < entries.len(),
        is_package(system, entries[i]),
        forall|k: int| 0 <= k < i ==> !is_package(system, #[trigger] entries[k]),
    ensures
        first_package(system, entries) == Some(entries[i].path),
    decreases i,
{
    if i > 0 {
        let rest = entries.drop_first();
        assert(!is_package(system, entries[0]));
        assert forall|k: int| 0 <= k < i - 1 implies !is_package(system, #[trigger] rest[k]) by {
            assert(rest[k] == entries[k + 1]);
        }
        lemma_first_package(system, rest, i - 1);
    }
}

/// Starts the search below a directory; nothing is searched where it is missing.
pub fn find_apk_file(system: System, build_dir: &str, exists: bool) -> (r: PackageSearch)
    ensures
        r@ == (SearchView {
            system,
            waiting: if exists {
                seq![build_dir@]
            } else {
                seq![]
            },
            found: None,
        }),
{
    let mut waiting: Vec<String> = Vec::new();
    if exists {
        waiting.push(build_dir.to_owned());
    }
    let r = PackageSearch { system, waiting, found: None };
    assert(r@.waiting =~= if exists {
        seq![build_dir@]
    } else {
        seq![]
    });
    r
}

impl PackageSearch {
    /// The directory to list next; none where the search is over.
    pub fn next_dir(&self) -> (r: Option<String>)
        ensures
            opt_text(r) == if self@.found is Some || self@.waiting.len() == 0 {
                None
            } else {
                Some(self@.waiting[0])
            },
    {
        if self.found.is_some() || self.waiting.len() == 0 {
            None
        } else {
            assert(self@.waiting[0] == self.waiting@[0]@);
            Some(self.waiting[0].clone())
        }
    }

    /// The next directory was listed.
    pub fn listed(&mut self, entries: &Vec<DirEntry>)
        ensures
            final(self)@ == old(self)@.after(entries_view(entries@)),
    {
        broadcast use texts_push;

        if self.found.is_some() || self.waiting.len() == 0 {
            return;
        }
        let system = self.system;
        let ghost all = entries_view(entries@);
        let ghost before = self@;
        let mut dirs: Vec<String> = Vec::new();
        let mut i: usize = 0;
        assert(all.take(0) =~= seq![]);
        assert(texts(dirs@) =~= seq![]);
        while i < entries.len()
            invariant
                i <= entries.len(),
                all == entries_view(entries@),
                texts(dirs@) == dirs_among(all.take(i as int)),
                forall|k: int| 0 <= k < i ==> !is_package(system, #[trigger] all[k]),
                system == old(self).system,
                *self == *old(self),
                before == old(self)@,
                before.found is None,
                before.waiting.len() > 0,
            decreases entries.len() - i,
        {
            assert(all[i as int] == entries@[i as int]@);
            assert(all.take(i + 1).drop_last() =~= all.take(i as int));
            assert(all.take(i + 1).last() == all[i as int]);
            if entries[i].is_dir {
                dirs.push(entries[i].path.clone());
            } else {
                if let Some(ext) = extension(system, entries[i].path.as_str()) {
                    if same_text(ext.as_str(), "apk") {
                        proof {
                            lemma_first_package(system, all, i as int);
                        }
                        self.found = Some(entries[i].path.clone());
                        self.waiting = Vec::new();
                        assert(self@.waiting =~= seq![]);
                        return;
                    }
                }
            }
            i += 1;
        }
        assert(all.take(all.len() as int) =~= all);
        proof {
            lemma_no_package(system, all);
        }
        let mut waiting: Vec<String> = Vec::new();
        let mut j: usize = 1;
        assert(texts(waiting@) =~= before.waiting.subrange(1, 1));
        while j < self.waiting.len()
            invariant
                1 <= j <= self.waiting.len(),
                before.waiting == texts(self.waiting@),
                texts(waiting@) == before.waiting.subrange(1, j as int),
            decreases self.waiting.len() - j,
        {
            assert(before.waiting[j as int] == self.waiting@[j as int]@);
            waiting.push(self.waiting[j].clone());
            assert(before.waiting.subrange(1, j + 1) =~= before.waiting.subrange(1, j as int).push(
                before.waiting[j as int],
            ));
            j += 1;
        }
        assert(before.waiting.subrange(1, j as int) =~= before.waiting.drop_first());
        let ghost first = texts(waiting@);
        let ghost second = texts(dirs@);
        waiting.append(&mut dirs);
        assert(texts(waiting@) =~= first + second);
        self.waiting = waiting;
    }
}

/// A search that is over has found a package exactly where one of the directories that were
/// listed held one.
pub proof fn law_package_is_found(start: SearchView, listings: Seq<Seq<EntryView>>)
    requires
        start.found is None,
        forall|k: int|
            0 <= k < listings.len() ==> start.after_all(
                #[trigger] listings.take(k),
            ).waiting.len() > 0,
    ensures
        start.after_all(listings).found is Some <==> exists|k: int, i: int|
            0 <= k < listings.len() && 0 <= i < listings[k].len() && is_package(
                start.system, #[trigger] listings[k][i],
            ),
    decreases listings.len(),
{
    if listings.len() > 0 {
        let n = listings.len() as int;
        let init = listings.drop_last();
        assert(init =~= listings.take(n - 1));
        assert forall|k: int| 0 <= k < init.len() implies start.after_all(
            #[trigger] init.take(k),
        ).waiting.len() > 0 by {
            assert(init.take(k) =~= listings.take(k));
        }
        law_package_is_found(start, init);
        let before = start.after_all(init);
        assert(start.after_all(listings.take(n - 1)).waiting.len() > 0);
        lemma_found_is_over(start, init);
        assert(before.system == start.system);
        lemma_no_package(start.system, listings.last());
        if start.after_all(listings).found is Some {
            let i = choose|i: int|
                0 <= i < listings.last().len() && is_package(start.system, #[trigger] listings.last()[i]);
            assert(is_package(start.system, listings[n - 1][i]));
        } else {
            assert forall|k: int, i: int|
                0 <= k < listings.len() && 0 <= i < listings[k].len() implies !is_package(
                start.system, #[trigger] listings[k][i],
            ) by {
                if k < n - 1 {
                    assert(init[k] == listings[k]);
                    assert(!is_package(start.system, init[k][i]));
                }
            }
        }
    }
}

/// A search that has found a package has nothing left to list.
proof fn lemma_found_is_over(start: SearchView, listings: Seq<Seq<EntryView>>)
    requires
        start.found is None,
    ensures
        start.after_all(listings).found is Some ==> start.after_all(listings).waiting.len() == 0,
        start.after_all(listings).system == start.system,
    decreases listings.len(),
{
    if listings.len() > 0 {
        lemma_found_is_over(start, listings.drop_last());
    }
}

/// What a directory holds, where `names` tells the names and `kinds` which of them are directories.
pub open spec fn listing(
    dir: Seq<char>,
    sep: char,
    names: Seq<Seq<char>>,
    kinds: Seq<bool>,
) -> Seq<EntryView> {
    Seq::new(
        names.len(),
        |i: int| EntryView { path: dir.push(sep) + names[i], is_dir: kinds[i] },
    )
}

/// Names that files of a directory can have. On Windows the directory has to be more than the
/// beginning of a volume, and one in which slashes separate.
pub open spec fn are_names_in(
    system: System,
    dir: Seq<char>,
    sep: char,
    names: Seq<Seq<char>>,
) -> bool {
    &&& is_separator(system, sep)
    &&& forall|i: int| 0 <= i < names.len() ==> is_name_in(system, dir, sep, #[trigger] names[i])
}

/// A name that a file of a directory can have.
pub open spec fn is_name_in(system: System, dir: Seq<char>, sep: char, name: Seq<char>) -> bool {
    &&& name.len() > 0
    &&& forall|k: int| 0 <= k < name.len() ==> !is_separator(system, #[trigger] name[k])
    &&& name != seq!['.']
    &&& name != seq!['.', '.']
    &&& system is Unix || (prefix_len(system, dir.push(sep) + name) <= dir.len() && !is_verbatim(
        system,
        dir.push(sep) + name,
    ))
}

proof fn lemma_apk_path(system: System, dir: Seq<char>, sep: char, name: Seq<char>)
    requires
        is_separator(system, sep),
        is_name_in(system, dir, sep, name),
    ensures
        path_extension(system, dir.push(sep) + name) == Some("apk"@) <==> exists|stem: Seq<char>|
            stem.len() > 0 && name == #[trigger] (stem + ".apk"@),
{
    reveal_strlit("apk");
    reveal_strlit(".apk");
    let p = dir.push(sep) + name;
    law_file_name(system, dir, sep, name);
    if path_extension(system, p) == Some("apk"@) {
        law_extension_ends_the_name(system, p);
        let stem = path_file_stem(system, p)->0;
        assert(name =~= stem + ".apk"@);
    }
    if exists|stem: Seq<char>| stem.len() > 0 && name == #[trigger] (stem + ".apk"@) {
        let stem = choose|stem: Seq<char>| stem.len() > 0 && name == #[trigger] (stem + ".apk"@);
        assert(name =~= stem.push('.') + "apk"@);
        assert(!"apk"@.contains('.'));
        assert forall|i: int| 0 <= i < stem.len() implies !is_separator(
            system,
            #[trigger] stem[i],
        ) by {
            assert(stem[i] == name[i]);
        }
        law_extension(system, dir, sep, stem, "apk"@);
    }
}

/// A search that lists a directory with a file whose name ends in `.apk`, whatever stands before
/// that, has found a package.
pub proof fn law_apk_is_found(
    s: SearchView,
    dir: Seq<char>,
    sep: char,
    names: Seq<Seq<char>>,
    kinds: Seq<bool>,
    i: int,
    stem: Seq<char>,
)
    requires
        s.found is None,
        s.waiting.len() > 0,
        are_names_in(s.system, dir, sep, names),
        0 <= i < names.len(),
        !kinds[i],
        stem.len() > 0,
        names[i] == stem + ".apk"@,
    ensures
        s.after(listing(dir, sep, names, kinds)).found is Some,
{
    let entries = listing(dir, sep, names, kinds);
    lemma_apk_path(s.system, dir, sep, names[i]);
    assert(is_package(s.system, entries[i]));
    lemma_no_package(s.system, entries);
}

/// What a search finds in a directory that it lists is the first file there whose name ends in
/// `.apk` after something else.
pub proof fn law_found_is_the_first_apk(
    s: SearchView,
    dir: Seq<char>,
    sep: char,
    names: Seq<Seq<char>>,
    kinds: Seq<bool>,
)
    requires
        s.found is None,
        are_names_in(s.system, dir, sep, names),
        s.after(listing(dir, sep, names, kinds)).found is Some,
    ensures
        exists|i: int, stem: Seq<char>|
            #![trigger names[i], stem + ".apk"@]
            {
                &&& 0 <= i < names.len()
                &&& !kinds[i]
                &&& stem.len() > 0
                &&& names[i] == stem + ".apk"@
                &&& s.after(listing(dir, sep, names, kinds)).found == Some(dir.push(sep) + names[i])
                &&& forall|j: int, other: Seq<char>|
                    #![trigger names[j], other + ".apk"@]
                    0 <= j < i && !kinds[j] && other.len() > 0 ==> names[j] != other + ".apk"@
            },
        s.after(listing(dir, sep, names, kinds)).waiting.len() == 0,
{
    let entries = listing(dir, sep, names, kinds);
    let i = lemma_first_at(s.system, entries);
    lemma_apk_path(s.system, dir, sep, names[i]);
    let stem = choose|stem: Seq<char>| stem.len() > 0 && names[i] == #[trigger] (stem + ".apk"@);
    assert forall|j: int, other: Seq<char>|
        #![trigger names[j], other + ".apk"@]
        0 <= j < i && !kinds[j] && other.len() > 0 implies names[j] != other + ".apk"@ by {
        if names[j] == other + ".apk"@ {
            lemma_apk_path(s.system, dir, sep, names[j]);
            assert(is_package(s.system, entries[j]));
        }
    }
    assert(names[i] == stem + ".apk"@);
}

proof fn lemma_first_at(system: System, entries: Seq<EntryView>) -> (i: int)
    requires
        first_package(system, entries) is Some,
    ensures
        0 <= i < entries.len(),
        is_package(system, entries[i]),
        first_package(system, entries) == Some(entries[i].path),
        forall|k: int| 0 <= k < i ==> !is_package(system, #[trigger] entries[k]),
    decreases entries.len(),
{
    if is_package(system, entries[0]) {
        0
    } else {
        let rest = entries.drop_first();
        let i = lemma_first_at(system, rest);
        assert forall|k: int| 0 <= k < i + 1 implies !is_package(system, #[trigger] entries[k]) by {
            if k > 0 {
                assert(rest[k - 1] == entries[k]);
            }
        }
        i + 1
    }
}

/// Where a listing holds no package, every directory in it is searched later, whatever its name,
/// after all that waited before; and nothing else is.
pub proof fn law_listed_directories_wait(s: SearchView, entries: Seq<EntryView>, p: Seq<char>)
    requires
        s.found is None,
        s.waiting.len() > 0,
        s.after(entries).found is None,
    ensures
        s.waiting.drop_first().is_prefix_of(s.after(entries).waiting),
        s.after(entries).waiting.skip(s.waiting.len() - 1).contains(p) <==> exists|i: int|
            0 <= i < entries.len() && (#[trigger] entries[i]).is_dir && entries[i].path == p,
{
    lemma_dirs_among(entries, p);
    assert(s.after(entries).waiting.skip(s.waiting.len() - 1) =~= dirs_among(entries));
    assert(s.waiting.drop_first().is_prefix_of(s.after(entries).waiting));
}

/// Directories are searched in the order in which they were listed: those of the first part of a
/// listing before those of the rest.
pub proof fn law_directories_keep_their_order(
    a: Seq<EntryView>,
    b: Seq<EntryView>,
    e: EntryView,
)
    ensures
        dirs_among(a + b) == dirs_among(a) + dirs_among(b),
        e.is_dir ==> dirs_among(seq![e]) == seq![e.path],
        !e.is_dir ==> dirs_among(seq![e]).len() == 0,
    decreases b.len(),
{
    reveal_with_fuel(dirs_among, 2);
    let one = seq![e];
    assert(one.drop_last() =~= Seq::<EntryView>::empty());
    assert(one.last() == e);
    if e.is_dir {
        assert(dirs_among(one) =~= seq![e.path]);
    }
    if b.len() == 0 {
        assert(a + b =~= a);
        assert(dirs_among(a) + dirs_among(b) =~= dirs_among(a));
    } else {
        law_directories_keep_their_order(a, b.drop_last(), e);
        assert((a + b).drop_last() =~= a + b.drop_last());
        assert((a + b).last() == b.last());
        assert(dirs_among(a + b) =~= dirs_among(a) + dirs_among(b));
    }
}

proof fn lemma_dirs_among(entries: Seq<EntryView>, p: Seq<char>)
    ensures
        dirs_among(entries).contains(p) <==> exists|i: int|
            0 <= i < entries.len() && (#[trigger] entries[i]).is_dir && entries[i].path == p,
    decreases entries.len(),
{
    if entries.len() > 0 {
        let init = entries.drop_last();
        let n = entries.len() - 1;
        lemma_dirs_among(init, p);
        let all = dirs_among(entries);
        let some = dirs_among(init);
        if all.contains(p) {
            let k = choose|k: int| 0 <= k < all.len() && all[k] == p;
            if k < some.len() {
                assert(some[k] == p);
                let i = choose|i: int|
                    0 <= i < init.len() && (#[trigger] init[i]).is_dir && init[i].path == p;
                assert(entries[i].is_dir && entries[i].path == p);
            } else {
                assert(entries[n].is_dir && entries[n].path == p);
            }
        }
        if exists|i: int| 0 <= i < entries.len() && (#[trigger] entries[i]).is_dir
            && entries[i].path == p {
            let i = choose|i: int|
                0 <= i < entries.len() && (#[trigger] entries[i]).is_dir && entries[i].path == p;
            if i < n {
                assert(init[i].is_dir && init[i].path == p);
                let k = choose|k: int| 0 <= k < some.len() && some[k] == p;
                assert(all[k] == p);
            } else {
                assert(all[some.len() as int] == p);
            }
        }
    }
}

/// The directories in directories, in order, where `tree` tells what a directory holds.
pub open spec fn dirs_of(
    tree: spec_fn(Seq<char>) -> Seq<EntryView>,
    dirs: Seq<Seq<char>>,
) -> Seq<Seq<char>>
    decreases dirs.len(),
{
    if dirs.len() == 0 {
        seq![]
    } else {
        dirs_of(tree, dirs.drop_last()) + dirs_among(tree(dirs.last()))
    }
}

/// The directories so many steps below a directory.
pub open spec fn level(
    tree: spec_fn(Seq<char>) -> Seq<EntryView>,
    root: Seq<char>,
    depth: nat,
) -> Seq<Seq<char>>
    decreases depth,
{
    if depth == 0 {
        seq![root]
    } else {
        dirs_of(tree, level(tree, root, (depth - 1) as nat))
    }
}

/// The first directories of a list hold no package.
pub open spec fn none_in(
    system: System,
    tree: spec_fn(Seq<char>) -> Seq<EntryView>,
    dirs: Seq<Seq<char>>,
    count: int,
) -> bool {
    forall|i: int| 0 <= i < count ==> first_package(system, tree(#[trigger] dirs[i])) is None
}

/// No directory less than `depth` steps below a directory holds a package.
pub open spec fn none_above(
    system: System,
    tree: spec_fn(Seq<char>) -> Seq<EntryView>,
    root: Seq<char>,
    depth: nat,
) -> bool {
    forall|d: nat|
        d < depth ==> none_in(
            system,
            tree,
            #[trigger] level(tree, root, d),
            level(tree, root, d).len() as int,
        )
}

/// The package `p` is the first of the directory at `i` among those `depth` steps below, and no
/// directory before it or less deep holds one.
pub open spec fn is_shallowest(
    system: System,
    tree: spec_fn(Seq<char>) -> Seq<EntryView>,
    root: Seq<char>,
    depth: nat,
    i: int,
    p: Seq<char>,
) -> bool {
    let dirs = level(tree, root, depth);
    &&& 0 <= i < dirs.len()
    &&& first_package(system, tree(dirs[i])) == Some(p)
    &&& none_in(system, tree, dirs, i)
    &&& none_above(system, tree, root, depth)
}

impl SearchView {
    /// The search below a directory, after so many directories were listed.
    pub open spec fn below(
        system: System,
        tree: spec_fn(Seq<char>) -> Seq<EntryView>,
        root: Seq<char>,
        steps: nat,
    ) -> SearchView
        decreases steps,
    {
        if steps == 0 {
            SearchView { system, waiting: seq![root], found: None }
        } else {
            let before = SearchView::below(system, tree, root, (steps - 1) as nat);
            before.after(tree(before.waiting[0]))
        }
    }

    /// The search is at the directory at `i` among those `depth` steps below.
    spec fn is_at(
        self,
        tree: spec_fn(Seq<char>) -> Seq<EntryView>,
        root: Seq<char>,
        depth: nat,
        i: int,
    ) -> bool {
        let dirs = level(tree, root, depth);
        &&& self.found is None
        &&& 0 <= i <= dirs.len()
        &&& self.waiting == dirs.skip(i) + dirs_of(tree, dirs.take(i))
        &&& none_in(self.system, tree, dirs, i)
        &&& none_above(self.system, tree, root, depth)
    }
}

proof fn lemma_where(
    system: System,
    tree: spec_fn(Seq<char>) -> Seq<EntryView>,
    root: Seq<char>,
    steps: nat,
) -> (at: (nat, int))
    ensures
        SearchView::below(system, tree, root, steps).system == system,
        match SearchView::below(system, tree, root, steps).found {
            Some(p) => is_shallowest(system, tree, root, at.0, at.1, p),
            None => SearchView::below(system, tree, root, steps).is_at(tree, root, at.0, at.1),
        },
    decreases steps,
{
    if steps == 0 {
        let dirs = level(tree, root, 0);
        assert(dirs.take(0) =~= seq![]);
        assert(dirs.skip(0) + dirs_of(tree, dirs.take(0)) =~= seq![root]);
        (0, 0)
    } else {
        let before = SearchView::below(system, tree, root, (steps - 1) as nat);
        let now = SearchView::below(system, tree, root, steps);
        let was = lemma_where(system, tree, root, (steps - 1) as nat);
        if before.found is Some || before.waiting.len() == 0 {
            was
        } else {
            let full = level(tree, root, was.0);
            let (depth, i) = if was.1 < full.len() {
                was
            } else {
                ((was.0 + 1) as nat, 0int)
            };
            let dirs = level(tree, root, depth);
            if was.1 == full.len() {
                assert(full.take(was.1) =~= full);
                assert(full.skip(was.1) =~= seq![]);
                assert(dirs == dirs_of(tree, full));
                assert(dirs.take(0) =~= seq![]);
                assert(before.waiting =~= dirs.skip(0) + dirs_of(tree, dirs.take(0)));
                assert forall|d: nat| d < depth implies none_in(
                    system,
                    tree,
                    #[trigger] level(tree, root, d),
                    level(tree, root, d).len() as int,
                ) by {}
            }
            assert(before.is_at(tree, root, depth, i));
            assert(before.waiting[0] == dirs[i]);
            match first_package(system, tree(dirs[i])) {
                Some(p) => (depth, i),
                None => {
                    assert(dirs.take(i + 1).drop_last() =~= dirs.take(i));
                    assert(dirs.take(i + 1).last() == dirs[i]);
                    assert(now.waiting =~= dirs.skip(i + 1) + dirs_of(tree, dirs.take(i + 1)));
                    (depth, i + 1)
                },
            }
        }
    }
}

proof fn lemma_nothing_deeper(
    tree: spec_fn(Seq<char>) -> Seq<EntryView>,
    root: Seq<char>,
    depth: nat,
    deeper: nat,
)
    requires
        level(tree, root, depth).len() == 0,
        depth <= deeper,
    ensures
        level(tree, root, deeper).len() == 0,
    decreases deeper,
{
    if depth < deeper {
        lemma_nothing_deeper(tree, root, depth, (deeper - 1) as nat);
    }
}

/// Of the packages below a directory, a search finds one in a directory that is the least deep of
/// all that hold one. A search that ends without a package has missed none.
pub proof fn law_shallowest_package_is_found(
    system: System,
    tree: spec_fn(Seq<char>) -> Seq<EntryView>,
    root: Seq<char>,
    steps: nat,
)
    ensures
        match SearchView::below(system, tree, root, steps).found {
            Some(p) => exists|depth: nat, i: int| is_shallowest(system, tree, root, depth, i, p),
            None => SearchView::below(system, tree, root, steps).waiting.len() == 0 ==> forall|depth: nat|
                none_above(system, tree, root, depth),
        },
{
    let at = lemma_where(system, tree, root, steps);
    let s = SearchView::below(system, tree, root, steps);
    if s.found is None && s.waiting.len() == 0 {
        let dirs = level(tree, root, at.0);
        assert(dirs.skip(at.1).len() == 0);
        assert(dirs.take(at.1) =~= dirs);
        assert(level(tree, root, (at.0 + 1) as nat) == dirs_of(tree, dirs));
        assert forall|depth: nat| none_above(system, tree, root, depth) by {
            assert forall|d: nat| d < depth implies none_in(
                system,
                tree,
                #[trigger] level(tree, root, d),
                level(tree, root, d).len() as int,
            ) by {
                if d > at.0 {
                    lemma_nothing_deeper(tree, root, (at.0 + 1) as nat, d);
                }
            }
        }
    }
}

} // verus!
