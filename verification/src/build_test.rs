//! The self-test of the service, which uploads projects and builds them through its own requests.
use crate::models::task::TaskStatus;
use crate::path::{
    is_absolute, is_absolute_path, join_path, law_joined_on_unix, law_parent_on_unix, lemma_unix,
    parent, path_joined, path_parent, System,
};
use crate::text::{
    decimal, decimal_text, law_decimal_read_back, law_end_is_trimmed, lemma_split,
    lemma_split_append, lemma_split_extend, opt_str, opt_text, parse_unsigned, split, split_seq,
    texts, texts_push, trim, trim_end_char, trim_end_of, trimmed, unsigned,
};
use crate::worker::execute::plus;
use vstd::prelude::*;

verus! {

/// The settings of a self-test.
#[derive(Debug)]
pub struct BuildTestConfig {
    pub base_url: Option<String>,
    pub file_path: Option<String>,
    pub file_paths: Option<Vec<String>>,
    pub interval_ms: Option<u64>,
    pub task_timeout: Option<u64>,
    pub queue_capacity: Option<usize>,
    pub cleanup_interval: Option<u64>,
    pub cleanup_retention_secs: Option<u64>,
    pub hourly_ip_limit: Option<u32>,
    pub max_retries: Option<u8>,
}

// ---------------------------------------------------------------------------
// Files to upload
// ---------------------------------------------------------------------------
/// The texts that are not blank, without the white space around them.
pub open spec fn not_blank(list: Seq<Seq<char>>) -> Seq<Seq<char>>
    decreases list.len(),
{
    if list.len() == 0 {
        seq![]
    } else if trimmed(list.last()).len() == 0 {
        not_blank(list.drop_last())
    } else {
        not_blank(list.drop_last()).push(trimmed(list.last()))
    }
}

/// A list of one text or none.
pub open spec fn listed(text: Option<Seq<char>>) -> Seq<Seq<char>> {
    match text {
        Some(t) => seq![t],
        None => seq![],
    }
}

pub open spec fn list_of(list: Option<Vec<String>>) -> Seq<Seq<char>> {
    match list {
        Some(l) => texts(l@),
        None => seq![],
    }
}

/// All paths that are named: by the configuration, one and then a list, and by the environment,
/// one and then a list with commas.
pub open spec fn named_paths(
    config: Option<&BuildTestConfig>,
    env_path: Option<Seq<char>>,
    env_paths: Option<Seq<char>>,
) -> Seq<Seq<char>> {
    (match config {
        Some(c) => listed(opt_text(c.file_path)) + list_of(c.file_paths),
        None => seq![],
    }) + listed(env_path) + match env_paths {
        Some(l) => split_seq(l, ','),
        None => seq![],
    }
}

/// The files are those that are named, in the order in which they are named.
pub proof fn law_paths_keep_their_order(a: Seq<Seq<char>>, b: Seq<Seq<char>>, path: Seq<char>)
    ensures
        not_blank(a + b) == not_blank(a) + not_blank(b),
        trimmed(path).len() > 0 ==> not_blank(seq![path]) == seq![trimmed(path)],
        trimmed(path).len() == 0 ==> not_blank(seq![path]).len() == 0,
{
    lemma_not_blank_add(a, b);
    let one = seq![path];
    reveal_with_fuel(not_blank, 2);
    assert(one.drop_last() =~= seq![]);
    assert(one.last() == path);
    assert(trimmed(path).len() > 0 ==> not_blank(one) =~= seq![trimmed(path)]);
}

/// A path that the environment names alone is the only file; two in a list with a comma are both
/// files, the first one first.
pub proof fn law_paths_of_the_environment(a: Seq<char>, b: Seq<char>)
    requires
        trimmed(a).len() > 0,
        trimmed(b).len() > 0,
        !a.contains(','),
        !b.contains(','),
    ensures
        not_blank(named_paths(None, Some(a), None)) == seq![trimmed(a)],
        not_blank(named_paths(None, None, Some(a.push(',') + b))) == seq![trimmed(a), trimmed(b)],
        not_blank(named_paths(None, None, None)).len() == 0,
{
    let none = Seq::<Seq<char>>::empty();
    law_paths_keep_their_order(seq![a], seq![b], a);
    law_paths_keep_their_order(seq![a], seq![b], b);
    assert(named_paths(None, Some(a), None) =~= seq![a]);
    lemma_split_append(a, ',', b);
    let nothing = Seq::<char>::empty();
    lemma_split(nothing, ',');
    lemma_split_extend(nothing, a, ',');
    assert(nothing + a =~= a);
    assert(split_seq(a, ',') =~= seq![a]);
    assert(named_paths(None, None, Some(a.push(',') + b)) =~= seq![a] + seq![b]);
    assert(not_blank(seq![a] + seq![b]) =~= seq![trimmed(a), trimmed(b)]);
    assert(named_paths(None, None, None) =~= none);
}

proof fn lemma_not_blank_add(a: Seq<Seq<char>>, b: Seq<Seq<char>>)
    ensures
        not_blank(a + b) == not_blank(a) + not_blank(b),
    decreases b.len(),
{
    if b.len() == 0 {
        assert(a + b =~= a);
        assert(not_blank(a) + not_blank(b) =~= not_blank(a));
    } else {
        lemma_not_blank_add(a, b.drop_last());
        assert((a + b).drop_last() =~= a + b.drop_last());
        assert((a + b).last() == b.last());
        assert(not_blank(a + b) =~= not_blank(a) + not_blank(b));
    }
}

fn add_path(paths: &mut Vec<String>, path: &str)
    ensures
        texts(final(paths)@) == texts(old(paths)@) + not_blank(seq![path@]),
{
    broadcast use texts_push;

    let value = trim(path);
    let ghost one = seq![path@];
    proof {
        reveal_with_fuel(not_blank, 2);
        assert(one.drop_last() =~= seq![]);
        assert(one.last() == path@);
    }
    if !value.as_str().is_empty() {
        paths.push(value);
        assert(not_blank(one) =~= seq![trimmed(path@)]);
        assert(texts(paths@) =~= texts(old(paths)@) + not_blank(one));
    } else {
        assert(texts(paths@) =~= texts(old(paths)@) + not_blank(one));
    }
}

fn add_paths(paths: &mut Vec<String>, list: &Vec<String>)
    ensures
        texts(final(paths)@) == texts(old(paths)@) + not_blank(texts(list@)),
{
    let ghost all = texts(list@);
    let ghost was = texts(paths@);
    let mut i: usize = 0;
    assert(all.take(0) =~= seq![]);
    assert(was + not_blank(all.take(0)) =~= was);
    while i < list.len()
        invariant
            i <= list.len(),
            all == texts(list@),
            texts(paths@) == was + not_blank(all.take(i as int)),
        decreases list.len() - i,
    {
        assert(all[i as int] == list@[i as int]@);
        add_path(paths, list[i].as_str());
        proof {
            assert(all.take(i + 1) =~= all.take(i as int) + seq![all[i as int]]);
            lemma_not_blank_add(all.take(i as int), seq![all[i as int]]);
            assert(texts(paths@) =~= was + not_blank(all.take(i + 1)));
        }
        i += 1;
    }
    assert(all.take(all.len() as int) =~= all);
}

/// The files that the self-test uploads.
pub fn build_test_file_paths_with_config(
    config: Option<&BuildTestConfig>,
    env_path: Option<&str>,
    env_paths: Option<&str>,
) -> (r: Vec<String>)
    ensures
        texts(r@) == not_blank(named_paths(config, opt_str(env_path), opt_str(env_paths))),
{
    let mut r: Vec<String> = Vec::new();
    let ghost mut seen: Seq<Seq<char>> = seq![];
    assert(texts(r@) =~= not_blank(seen));
    if let Some(c) = config {
        if let Some(path) = &c.file_path {
            add_path(&mut r, path.as_str());
            proof {
                lemma_not_blank_add(seen, seq![path@]);
                seen = seen + seq![path@];
            }
        }
        assert(seen =~= listed(opt_text(c.file_path)));
        if let Some(list) = &c.file_paths {
            add_paths(&mut r, list);
            proof {
                lemma_not_blank_add(seen, texts(list@));
                seen = seen + texts(list@);
            }
        }
        assert(seen =~= listed(opt_text(c.file_path)) + list_of(c.file_paths));
    }
    let ghost configured = seen;
    if let Some(path) = env_path {
        add_path(&mut r, path);
        proof {
            lemma_not_blank_add(seen, seq![path@]);
            seen = seen + seq![path@];
        }
    }
    assert(seen =~= configured + listed(opt_str(env_path)));
    if let Some(list) = env_paths {
        let pieces = split(list, ',');
        add_paths(&mut r, &pieces);
        proof {
            lemma_not_blank_add(seen, texts(pieces@));
            seen = seen + texts(pieces@);
        }
    }
    assert(seen =~= named_paths(config, opt_str(env_path), opt_str(env_paths)));
    r
}

// ---------------------------------------------------------------------------
// The configuration file
// ---------------------------------------------------------------------------
/// `path` below a directory, where there is one.
pub open spec fn below_dir(
    system: System,
    dir: Option<Seq<char>>,
    path: Seq<char>,
) -> Seq<Seq<char>> {
    match dir {
        Some(d) => seq![path_joined(system, d, path)],
        None => seq![],
    }
}

pub open spec fn parent_of(system: System, p: Option<Seq<char>>) -> Option<Seq<char>> {
    match p {
        Some(q) => path_parent(system, q),
        None => None,
    }
}

/// Where the configuration file is looked for: an absolute path only there; another below the
/// current directory, then below the directory of the program and the two above it.
pub open spec fn config_places(
    system: System,
    path: Seq<char>,
    cwd: Option<Seq<char>>,
    exe: Option<Seq<char>>,
) -> Seq<Seq<char>> {
    if is_absolute_path(system, path) {
        seq![path]
    } else {
        let dir = parent_of(system, exe);
        let above = parent_of(system, dir);
        let top = parent_of(system, above);
        below_dir(system, cwd, path) + below_dir(system, dir, path) + below_dir(
            system,
            above,
            path,
        ) + below_dir(system, top, path)
    }
}

/// On Unix a configuration file that is named by a relative path is looked for in the current
/// directory first, and then beside the program; one that is named by an absolute path only there.
pub proof fn law_config_places(
    path: Seq<char>,
    cwd: Seq<char>,
    up: Seq<char>,
    base: Seq<char>,
    program: Seq<char>,
)
    requires
        path.len() > 0,
        cwd.len() > 0,
        cwd.last() != '/',
        up.len() > 0,
        base.len() > 0,
        !base.contains('/'),
        base != seq!['.'],
        program.len() > 0,
        !program.contains('/'),
        program != seq!['.'],
    ensures
        ({
            let dir = up.push('/') + base;
            let places = config_places(
                System::Unix,
                path,
                Some(cwd),
                Some(dir.push('/') + program),
            );
            if path[0] == '/' {
                places == seq![path]
            } else {
                &&& places.len() >= 2
                &&& places[0] == cwd + seq!['/'] + path
                &&& places[1] == dir + seq!['/'] + path
            }
        }),
{
    let dir = up.push('/') + base;
    lemma_unix(path);
    law_joined_on_unix(cwd, path);
    law_joined_on_unix(dir, path);
    law_parent_on_unix(up, base, program);
    if dir.last() == '/' {
        assert(base[base.len() - 1] == '/');
        assert(base.contains('/'));
    }
}

/// Where the configuration file is looked for, in order.
pub fn config_candidates(
    system: System,
    path: &str,
    cwd: Option<&str>,
    exe: Option<&str>,
) -> (r: Vec<String>)
    ensures
        texts(r@) == config_places(system, path@, opt_str(cwd), opt_str(exe)),
{
    broadcast use texts_push;

    let mut r: Vec<String> = Vec::new();
    assert(texts(r@) =~= seq![]);
    if is_absolute(system, path) {
        r.push(path.to_owned());
        assert(texts(r@) =~= seq![path@]);
        return r;
    }
    if let Some(dir) = cwd {
        r.push(join_path(system, dir, path));
    }
    if let Some(program) = exe {
        if let Some(dir) = parent(system, program) {
            r.push(join_path(system, dir.as_str(), path));
            if let Some(above) = parent(system, dir.as_str()) {
                r.push(join_path(system, above.as_str(), path));
                if let Some(top) = parent(system, above.as_str()) {
                    r.push(join_path(system, top.as_str(), path));
                }
            }
        }
    }
    assert(texts(r@) =~= config_places(system, path@, opt_str(cwd), opt_str(exe)));
    r
}

/// The name of the configuration file, unless the environment gives another.
pub fn config_name(env: Option<&str>) -> (r: String)
    ensures
        r@ == match opt_str(env) {
            Some(name) => name,
            None => "test.json"@,
        },
{
    match env {
        Some(name) => name.to_owned(),
        None => "test.json".to_owned(),
    }
}

/// The first place at which there is a file.
pub fn load_build_test_config(candidates: &Vec<String>, exists: &Vec<bool>) -> (r: Option<String>)
    requires
        candidates@.len() == exists@.len(),
    ensures
        match r {
            Some(p) => exists|i: int|
                0 <= i < exists@.len() && #[trigger] exists@[i] && p@ == candidates@[i]@ && forall|
                    k: int,
                |
                    0 <= k < i ==> !(#[trigger] exists@[k]),
            None => forall|k: int| 0 <= k < exists@.len() ==> !(#[trigger] exists@[k]),
        },
{
    let mut i: usize = 0;
    while i < candidates.len()
        invariant
            candidates@.len() == exists@.len(),
            i <= candidates.len(),
            forall|k: int| 0 <= k < i ==> !(#[trigger] exists@[k]),
        decreases candidates.len() - i,
    {
        if exists[i] {
            return Some(candidates[i].clone());
        }
        i += 1;
    }
    None
}

// ---------------------------------------------------------------------------
// The environment
// ---------------------------------------------------------------------------
/// A variable and the value that it is set to.
#[derive(Debug)]
pub struct Setting {
    pub name: &'static str,
    pub value: String,
}

pub open spec fn settings_view(list: Seq<Setting>) -> Seq<(Seq<char>, Seq<char>)> {
    Seq::new(list.len(), |i: int| (list[i].name@, list[i].value@))
}

/// A setting, where there is a number for it.
pub open spec fn number_set(name: Seq<char>, value: Option<nat>) -> Seq<(Seq<char>, Seq<char>)> {
    match value {
        Some(n) => seq![(name, decimal(n))],
        None => seq![],
    }
}

/// A setting, where there is a text for it.
pub open spec fn text_set(name: Seq<char>, value: Option<Seq<char>>) -> Seq<(Seq<char>, Seq<char>)> {
    match value {
        Some(t) => seq![(name, t)],
        None => seq![],
    }
}

/// A setting that is made where the configuration has no number for it.
pub open spec fn default_set(name: Seq<char>, given: bool, value: Seq<char>) -> Seq<
    (Seq<char>, Seq<char>),
> {
    if given {
        seq![]
    } else {
        seq![(name, value)]
    }
}

pub open spec fn nat_of_u64(n: Option<u64>) -> Option<nat> {
    match n {
        Some(v) => Some(v as nat),
        None => None,
    }
}

pub open spec fn nat_of_usize(n: Option<usize>) -> Option<nat> {
    match n {
        Some(v) => Some(v as nat),
        None => None,
    }
}

pub open spec fn nat_of_u32(n: Option<u32>) -> Option<nat> {
    match n {
        Some(v) => Some(v as nat),
        None => None,
    }
}

pub open spec fn nat_of_u8(n: Option<u8>) -> Option<nat> {
    match n {
        Some(v) => Some(v as nat),
        None => None,
    }
}

/// Settings, and those that a configuration makes after them.
pub open spec fn with_configured(
    before: Seq<(Seq<char>, Seq<char>)>,
    config: Option<&BuildTestConfig>,
) -> Seq<(Seq<char>, Seq<char>)> {
    match config {
        Some(c) => before + number_set("TASK_TIMEOUT"@, nat_of_u64(c.task_timeout)) + number_set(
            "QUEUE_CAPACITY"@,
            nat_of_usize(c.queue_capacity),
        ) + number_set("CLEANUP_INTERVAL"@, nat_of_u64(c.cleanup_interval)) + number_set(
            "CLEANUP_RETENTION_SECS"@,
            nat_of_u64(c.cleanup_retention_secs),
        ) + number_set("HOURLY_IP_LIMIT"@, nat_of_u32(c.hourly_ip_limit)) + number_set(
            "MAX_RETRIES"@,
            nat_of_u8(c.max_retries),
        ),
        None => before,
    }
}

pub open spec fn gives_timeout(config: Option<&BuildTestConfig>) -> bool {
    config matches Some(c) && c.task_timeout is Some
}

pub open spec fn gives_interval(config: Option<&BuildTestConfig>) -> bool {
    config matches Some(c) && c.cleanup_interval is Some
}

pub open spec fn gives_retention(config: Option<&BuildTestConfig>) -> bool {
    config matches Some(c) && c.cleanup_retention_secs is Some
}

/// The settings of a self-test, one after the other; a later one takes the place of an earlier
/// one of the same name.
pub open spec fn test_settings(
    config: Option<&BuildTestConfig>,
    env_timeout: Option<Seq<char>>,
    env_capacity: Option<Seq<char>>,
) -> Seq<(Seq<char>, Seq<char>)> {
    with_configured(seq![("RUST_LOG"@, "info"@)], config) + text_set(
        "TASK_TIMEOUT"@,
        env_timeout,
    ) + text_set("QUEUE_CAPACITY"@, env_capacity) + default_set(
        "TASK_TIMEOUT"@,
        gives_timeout(config),
        "1800"@,
    ) + default_set("CLEANUP_INTERVAL"@, gives_interval(config), "86400"@) + default_set(
        "CLEANUP_RETENTION_SECS"@,
        gives_retention(config),
        "86400"@,
    )
}

/// Every number that the configuration gives is set as it is, whatever it is.
pub proof fn law_configured_numbers_are_set(
    c: &BuildTestConfig,
    env_timeout: Option<Seq<char>>,
    env_capacity: Option<Seq<char>>,
)
    ensures
        ({
            let set = test_settings(Some(c), env_timeout, env_capacity);
            &&& c.task_timeout matches Some(n) ==> set.contains(("TASK_TIMEOUT"@, decimal(n as nat)))
            &&& c.queue_capacity matches Some(n) ==> set.contains(
                ("QUEUE_CAPACITY"@, decimal(n as nat)),
            )
            &&& c.cleanup_interval matches Some(n) ==> set.contains(
                ("CLEANUP_INTERVAL"@, decimal(n as nat)),
            )
            &&& c.cleanup_retention_secs matches Some(n) ==> set.contains(
                ("CLEANUP_RETENTION_SECS"@, decimal(n as nat)),
            )
            &&& c.hourly_ip_limit matches Some(n) ==> set.contains(
                ("HOURLY_IP_LIMIT"@, decimal(n as nat)),
            )
            &&& c.max_retries matches Some(n) ==> set.contains(("MAX_RETRIES"@, decimal(n as nat)))
            &&& env_timeout matches Some(t) ==> set.contains(("TASK_TIMEOUT"@, t))
            &&& env_capacity matches Some(t) ==> set.contains(("QUEUE_CAPACITY"@, t))
        }),
{
    let s0 = seq![("RUST_LOG"@, "info"@)];
    let a1 = number_set("TASK_TIMEOUT"@, nat_of_u64(c.task_timeout));
    let a2 = number_set("QUEUE_CAPACITY"@, nat_of_usize(c.queue_capacity));
    let a3 = number_set("CLEANUP_INTERVAL"@, nat_of_u64(c.cleanup_interval));
    let a4 = number_set("CLEANUP_RETENTION_SECS"@, nat_of_u64(c.cleanup_retention_secs));
    let a5 = number_set("HOURLY_IP_LIMIT"@, nat_of_u32(c.hourly_ip_limit));
    let a6 = number_set("MAX_RETRIES"@, nat_of_u8(c.max_retries));
    let a7 = text_set("TASK_TIMEOUT"@, env_timeout);
    let a8 = text_set("QUEUE_CAPACITY"@, env_capacity);
    let a9 = default_set("TASK_TIMEOUT"@, gives_timeout(Some(c)), "1800"@);
    let b1 = default_set("CLEANUP_INTERVAL"@, gives_interval(Some(c)), "86400"@);
    let b2 = default_set("CLEANUP_RETENTION_SECS"@, gives_retention(Some(c)), "86400"@);
    let s1 = s0 + a1;
    let s2 = s1 + a2;
    let s3 = s2 + a3;
    let s4 = s3 + a4;
    let s5 = s4 + a5;
    let s6 = s5 + a6;
    let s7 = s6 + a7;
    let s8 = s7 + a8;
    let s9 = s8 + a9;
    let t1 = s9 + b1;
    let t2 = t1 + b2;
    assert(t2 == test_settings(Some(c), env_timeout, env_capacity));
    assert(forall|i: int| 0 <= i < s9.len() ==> t2[i] == s9[i]);
    if c.task_timeout is Some {
        assert(t2[s0.len() as int] == a1[0]);
    }
    if c.queue_capacity is Some {
        assert(t2[s1.len() as int] == a2[0]);
    }
    if c.cleanup_interval is Some {
        assert(t2[s2.len() as int] == a3[0]);
    }
    if c.cleanup_retention_secs is Some {
        assert(t2[s3.len() as int] == a4[0]);
    }
    if c.hourly_ip_limit is Some {
        assert(t2[s4.len() as int] == a5[0]);
    }
    if c.max_retries is Some {
        assert(t2[s5.len() as int] == a6[0]);
    }
    if env_timeout is Some {
        assert(t2[s6.len() as int] == a7[0]);
    }
    if env_capacity is Some {
        assert(t2[s7.len() as int] == a8[0]);
    }
}

fn set_text(list: &mut Vec<Setting>, name: &'static str, value: String)
    ensures
        settings_view(final(list)@) == settings_view(old(list)@) + seq![(name@, value@)],
{
    list.push(Setting { name, value });
    assert(settings_view(list@) =~= settings_view(old(list)@) + seq![(name@, value@)]);
}

fn set_number(list: &mut Vec<Setting>, name: &'static str, value: Option<u64>)
    ensures
        settings_view(final(list)@) == settings_view(old(list)@) + number_set(
            name@,
            nat_of_u64(value),
        ),
{
    if let Some(n) = value {
        set_text(list, name, decimal_text(n));
    } else {
        assert(settings_view(list@) + seq![] =~= settings_view(list@));
    }
}

fn set_given(list: &mut Vec<Setting>, name: &'static str, value: Option<&str>)
    ensures
        settings_view(final(list)@) == settings_view(old(list)@) + text_set(name@, opt_str(value)),
{
    if let Some(t) = value {
        set_text(list, name, t.to_owned());
    } else {
        assert(settings_view(list@) + seq![] =~= settings_view(list@));
    }
}

fn set_default(list: &mut Vec<Setting>, name: &'static str, given: bool, value: &'static str)
    ensures
        settings_view(final(list)@) == settings_view(old(list)@) + default_set(
            name@,
            given,
            value@,
        ),
{
    if !given {
        set_text(list, name, value.to_owned());
    } else {
        assert(settings_view(list@) + seq![] =~= settings_view(list@));
    }
}

fn set_configured(list: &mut Vec<Setting>, c: &BuildTestConfig)
    ensures
        settings_view(final(list)@) == with_configured(settings_view(old(list)@), Some(c)),
{
    set_number(list, "TASK_TIMEOUT", c.task_timeout);
    set_number(
        list,
        "QUEUE_CAPACITY",
        match c.queue_capacity {
            Some(n) => Some(n as u64),
            None => None,
        },
    );
    set_number(list, "CLEANUP_INTERVAL", c.cleanup_interval);
    set_number(list, "CLEANUP_RETENTION_SECS", c.cleanup_retention_secs);
    set_number(
        list,
        "HOURLY_IP_LIMIT",
        match c.hourly_ip_limit {
            Some(n) => Some(n as u64),
            None => None,
        },
    );
    set_number(
        list,
        "MAX_RETRIES",
        match c.max_retries {
            Some(n) => Some(n as u64),
            None => None,
        },
    );
}

/// The settings of a self-test, in the order in which they are made.
pub fn configure_build_test_environment(
    config: Option<&BuildTestConfig>,
    env_timeout: Option<&str>,
    env_capacity: Option<&str>,
) -> (r: Vec<Setting>)
    ensures
        settings_view(r@) == test_settings(config, opt_str(env_timeout), opt_str(env_capacity)),
{
    let mut r: Vec<Setting> = Vec::new();
    assert(settings_view(r@) =~= seq![]);
    set_text(&mut r, "RUST_LOG", "info".to_owned());
    assert(settings_view(r@) =~= seq![("RUST_LOG"@, "info"@)]);
    let mut timeout = false;
    let mut interval = false;
    let mut retention = false;
    if let Some(c) = config {
        set_configured(&mut r, c);
        timeout = c.task_timeout.is_some();
        interval = c.cleanup_interval.is_some();
        retention = c.cleanup_retention_secs.is_some();
    }
    set_given(&mut r, "TASK_TIMEOUT", env_timeout);
    set_given(&mut r, "QUEUE_CAPACITY", env_capacity);
    set_default(&mut r, "TASK_TIMEOUT", timeout, "1800");
    set_default(&mut r, "CLEANUP_INTERVAL", interval, "86400");
    set_default(&mut r, "CLEANUP_RETENTION_SECS", retention, "86400");
    r
}

/// The address under which the self-test reaches the service: that of the configuration, else
/// that of the environment, else this machine.
pub fn base_url(config: Option<&BuildTestConfig>, env: Option<&str>, port: u16) -> (r: String)
    ensures
        r@ == match config {
            Some(BuildTestConfig { base_url: Some(url), .. }) => url@,
            _ => match opt_str(env) {
                Some(url) => url,
                None => "http://127.0.0.1:"@ + decimal(port as nat),
            },
        },
{
    if let Some(c) = config {
        if let Some(url) = &c.base_url {
            return url.clone();
        }
    }
    match env {
        Some(url) => url.to_owned(),
        None => plus("http://127.0.0.1:", decimal_text(port as u64).as_str()),
    }
}

/// The pause between two builds: that of the configuration, else that of the environment.
pub open spec fn pause_between(config: Option<&BuildTestConfig>, env: Option<Seq<char>>) -> nat {
    match config {
        Some(BuildTestConfig { interval_ms: Some(n), .. }) => *n as nat,
        _ => match env {
            Some(s) => match unsigned(s, u64::MAX as nat) {
                Some(n) => n,
                None => 200,
            },
            None => 200,
        },
    }
}

/// The pause is as long as the configuration says, whatever that is, else as the environment writes,
/// else 200 milliseconds.
pub proof fn law_pause_as_given(config: &BuildTestConfig, env: Option<Seq<char>>, n: nat)
    requires
        n <= u64::MAX,
    ensures
        config.interval_ms matches Some(ms) ==> pause_between(Some(config), env) == ms,
        config.interval_ms is None ==> pause_between(Some(config), env) == pause_between(None, env),
        pause_between(None, Some(decimal(n))) == n,
        pause_between(None, None) == 200,
        pause_between(None, Some(Seq::empty())) == 200,
{
    law_decimal_read_back(n, u64::MAX as nat);
}

/// The pause between two builds of the self-test, in milliseconds.
pub fn interval_ms(config: Option<&BuildTestConfig>, env: Option<&str>) -> (r: u64)
    ensures
        r == match config {
            Some(BuildTestConfig { interval_ms: Some(n), .. }) => *n as nat,
            _ => match opt_str(env) {
                Some(s) => match unsigned(s, u64::MAX as nat) {
                    Some(n) => n,
                    None => 200,
                },
                None => 200,
            },
        },
        r == pause_between(config, opt_str(env)),
{
    if let Some(c) = config {
        if let Some(n) = c.interval_ms {
            return n;
        }
    }
    match env {
        Some(s) => match parse_unsigned(s, u64::MAX) {
            Some(n) => n,
            None => 200,
        },
        None => 200,
    }
}

/// Whether a self-test of so many files will ask more often than an hour allows: twice for each.
pub fn exceeds_hourly_limit(files: usize, hourly_limit: u32) -> (r: bool)
    ensures
        r == (2 * files > hourly_limit),
{
    files > (hourly_limit / 2) as usize
}

// ---------------------------------------------------------------------------
// Requests
// ---------------------------------------------------------------------------
/// An address below the base address, which may end with slashes.
pub open spec fn request_url(base: Seq<char>, place: Seq<char>) -> Seq<char> {
    trim_end_char(base, '/') + place
}

/// An address is the base address and the place, however many slashes the base address ends with.
pub proof fn law_request_url(base: Seq<char>, slashes: nat, place: Seq<char>)
    requires
        base.len() == 0 || base.last() != '/',
    ensures
        request_url(base + Seq::new(slashes, |i: int| '/'), place) == base + place,
{
    law_end_is_trimmed(base, '/', slashes);
}

fn url_of(base: &str, place: &str) -> (r: String)
    ensures
        r@ == request_url(base@, place@),
{
    let root = trim_end_of(base, '/');
    plus(root.as_str(), place)
}

pub fn health_url(base: &str) -> (r: String)
    ensures
        r@ == request_url(base@, "/health"@),
{
    url_of(base, "/health")
}

pub fn upload_url(base: &str) -> (r: String)
    ensures
        r@ == request_url(base@, "/api/v1/upload"@),
{
    url_of(base, "/api/v1/upload")
}

pub fn build_url(base: &str) -> (r: String)
    ensures
        r@ == request_url(base@, "/api/v1/build"@),
{
    url_of(base, "/api/v1/build")
}

/// The addresses of the questions about a task.
#[derive(Debug)]
pub struct TaskUrls {
    pub status: String,
    pub events: String,
    pub download: String,
}

pub open spec fn task_place(task_id: Seq<char>, question: Seq<char>) -> Seq<char> {
    "/api/v1/build/"@ + task_id + question
}

fn place_of(task_id: &str, question: &str) -> (r: String)
    ensures
        r@ == task_place(task_id@, question@),
{
    let mut r = plus("/api/v1/build/", task_id);
    r.append(question);
    r
}

/// The questions about a task are asked below the builds, under the task's identifier.
pub proof fn law_task_addresses(base: Seq<char>, id: Seq<char>, question: Seq<char>)
    requires
        base.len() == 0 || base.last() != '/',
    ensures
        request_url(base, task_place(id, question)) == base + ("/api/v1/build/"@ + id + question),
{
    law_request_url(base, 0, task_place(id, question));
    assert(base + Seq::new(0, |i: int| '/') =~= base);
}

pub fn task_urls(base: &str, task_id: &str) -> (r: TaskUrls)
    ensures
        r.status@ == request_url(base@, task_place(task_id@, "/status"@)),
        r.events@ == request_url(base@, task_place(task_id@, "/events"@)),
        r.download@ == request_url(base@, task_place(task_id@, "/download"@)),
{
    TaskUrls {
        status: url_of(base, place_of(task_id, "/status").as_str()),
        events: url_of(base, place_of(task_id, "/events").as_str()),
        download: url_of(base, place_of(task_id, "/download").as_str()),
    }
}

/// What the self-test does while it waits for the service.
#[derive(Clone, Copy, Debug, PartialEq, Eq, Structural)]
pub enum WaitStep {
    /// The service answers.
    Ready,
    /// Wait for so many milliseconds, then ask again.
    Again(u64),
    /// Wait for so many milliseconds, then give up.
    GiveUp(u64),
}

/// What follows when the service was asked for the given time, from one on, and answered well or
/// not. It is asked 30 times.
pub fn wait_for_health(tried: u32, healthy: bool) -> (r: WaitStep)
    ensures
        r == if healthy {
            WaitStep::Ready
        } else if tried < 30 {
            WaitStep::Again(300)
        } else {
            WaitStep::GiveUp(300)
        },
{
    if healthy {
        WaitStep::Ready
    } else if tried < 30 {
        WaitStep::Again(300)
    } else {
        WaitStep::GiveUp(300)
    }
}

/// Whether an upload of the self-test counts: the answer has a good status, can be read, and has
/// the code 200.
pub fn upload_counts(good_status: bool, code: Option<i32>) -> (r: bool)
    ensures
        r == (good_status && code == Some(200i32)),
{
    good_status && match code {
        Some(c) => c == 200,
        None => false,
    }
}

// ---------------------------------------------------------------------------
// The run of a self-test
// ---------------------------------------------------------------------------
#[derive(Clone, Copy, Debug, PartialEq, Eq, Structural)]
pub enum TestStage {
    /// The service is asked whether it is ready.
    Health,
    /// The files are uploaded, one after the other.
    Upload,
    /// The uploaded files are built, one after the other.
    Build,
    /// All is under way.
    Done,
    /// The service did not get ready.
    Unready,
}

/// The run of a self-test.
#[derive(Debug)]
pub struct BuildTestRun {
    pub base_url: String,
    pub files: Vec<String>,
    pub interval_ms: u64,
    pub stage: TestStage,
    /// How often the service was asked whether it is ready.
    pub tried: u32,
    /// The next file to upload, or the next uploaded file to build.
    pub next: usize,
    /// What the uploaded files are known by.
    pub uploaded: Vec<String>,
}

pub struct TestRunView {
    pub base_url: Seq<char>,
    pub files: Seq<Seq<char>>,
    pub interval_ms: u64,
    pub stage: TestStage,
    pub tried: u32,
    pub next: int,
    pub uploaded: Seq<Seq<char>>,
}

impl View for BuildTestRun {
    type V = TestRunView;

    open spec fn view(&self) -> TestRunView {
        TestRunView {
            base_url: self.base_url@,
            files: texts(self.files@),
            interval_ms: self.interval_ms,
            stage: self.stage,
            tried: self.tried,
            next: self.next as int,
            uploaded: texts(self.uploaded@),
        }
    }
}

/// What has to be done next.
#[derive(Debug)]
pub enum TestAction {
    /// Ask for the health of the service at an address.
    AskHealth(String),
    /// Upload a file to an address.
    Upload(String, String),
    /// Ask for the build of an uploaded file at an address.
    Build(String, String),
    Done,
    Unready,
}

pub enum TestActionView {
    AskHealth(Seq<char>),
    Upload(Seq<char>, Seq<char>),
    Build(Seq<char>, Seq<char>),
    Done,
    Unready,
}

impl View for TestAction {
    type V = TestActionView;

    open spec fn view(&self) -> TestActionView {
        match self {
            TestAction::AskHealth(a) => TestActionView::AskHealth(a@),
            TestAction::Upload(a, b) => TestActionView::Upload(a@, b@),
            TestAction::Build(a, b) => TestActionView::Build(a@, b@),
            TestAction::Done => TestActionView::Done,
            TestAction::Unready => TestActionView::Unready,
        }
    }
}

/// What became of a request of the self-test.
#[derive(Debug)]
pub enum TestEvent {
    /// It was not answered, or not well.
    Failed,
    /// It was answered well, but the answer cannot be read.
    Unreadable,
    /// It was answered well, with a code and a text: what the uploaded file is known by, or the
    /// identifier of the task.
    Answered(i32, String),
}

pub enum TestEventView {
    Failed,
    Unreadable,
    Answered(i32, Seq<char>),
}

impl View for TestEvent {
    type V = TestEventView;

    open spec fn view(&self) -> TestEventView {
        match self {
            TestEvent::Failed => TestEventView::Failed,
            TestEvent::Unreadable => TestEventView::Unreadable,
            TestEvent::Answered(c, t) => TestEventView::Answered(*c, t@),
        }
    }
}

/// What follows a request: a pause in milliseconds, and a task to watch.
#[derive(Debug)]
pub struct TestEffect {
    pub pause_ms: u64,
    pub watch: Option<String>,
}

impl TestRunView {
    pub open spec fn wf(self) -> bool {
        &&& self.stage is Health ==> self.tried < 30 && self.next == 0 && self.uploaded.len() == 0
        &&& self.stage is Upload ==> 0 <= self.next < self.files.len()
        &&& self.stage is Build ==> 0 <= self.next < self.uploaded.len()
    }

    /// The run with the stage that it is at after the files up to `next` were uploaded.
    pub open spec fn uploading(self) -> TestRunView {
        if self.next < self.files.len() {
            TestRunView { stage: TestStage::Upload, ..self }
        } else {
            TestRunView { next: 0, ..self }.building()
        }
    }

    /// The run with the stage that it is at after the uploaded files up to `next` were built.
    pub open spec fn building(self) -> TestRunView {
        TestRunView {
            stage: if self.next < self.uploaded.len() {
                TestStage::Build
            } else {
                TestStage::Done
            },
            ..self
        }
    }

    pub open spec fn action(self) -> TestActionView {
        match self.stage {
            TestStage::Health => TestActionView::AskHealth(request_url(self.base_url, "/health"@)),
            TestStage::Upload => TestActionView::Upload(
                request_url(self.base_url, "/api/v1/upload"@),
                self.files[self.next],
            ),
            TestStage::Build => TestActionView::Build(
                request_url(self.base_url, "/api/v1/build"@),
                self.uploaded[self.next],
            ),
            TestStage::Done => TestActionView::Done,
            TestStage::Unready => TestActionView::Unready,
        }
    }

    pub open spec fn after(self, e: TestEventView) -> TestRunView {
        match self.stage {
            TestStage::Health => if e is Failed {
                TestRunView {
                    tried: (self.tried + 1) as u32,
                    stage: if self.tried + 1 < 30 {
                        TestStage::Health
                    } else {
                        TestStage::Unready
                    },
                    ..self
                }
            } else {
                self.uploading()
            },
            TestStage::Upload => TestRunView {
                next: self.next + 1,
                uploaded: match e {
                    TestEventView::Answered(code, id) => if code == 200 {
                        self.uploaded.push(id)
                    } else {
                        self.uploaded
                    },
                    _ => self.uploaded,
                },
                ..self
            }.uploading(),
            TestStage::Build => TestRunView { next: self.next + 1, ..self }.building(),
            TestStage::Done => self,
            TestStage::Unready => self,
        }
    }

    /// The pause that follows a request.
    pub open spec fn pause_after(self, e: TestEventView) -> u64 {
        match self.stage {
            TestStage::Health => if e is Failed {
                300
            } else {
                0
            },
            TestStage::Build => if e is Failed {
                0
            } else {
                self.interval_ms
            },
            _ => 0,
        }
    }

    /// The task that is watched after a request.
    pub open spec fn watched_after(self, e: TestEventView) -> Option<Seq<char>> {
        match (self.stage, e) {
            (TestStage::Build, TestEventView::Answered(_, id)) => Some(id),
            _ => None,
        }
    }
}

/// What the uploads that counted are known by, in order.
pub open spec fn accepted(events: Seq<TestEventView>) -> Seq<Seq<char>>
    decreases events.len(),
{
    if events.len() == 0 {
        seq![]
    } else {
        match events.last() {
            TestEventView::Answered(200, id) => accepted(events.drop_last()).push(id),
            _ => accepted(events.drop_last()),
        }
    }
}

impl TestRunView {
    /// The run after all the outcomes of a list.
    pub open spec fn after_all(self, events: Seq<TestEventView>) -> TestRunView
        decreases events.len(),
    {
        if events.len() == 0 {
            self
        } else {
            self.after_all(events.drop_last()).after(events.last())
        }
    }
}

/// Once the service is ready, every file is uploaded, one after the other, whatever became of
/// those before it.
pub proof fn law_every_file_is_uploaded(
    r: TestRunView,
    ready: TestEventView,
    events: Seq<TestEventView>,
)
    requires
        r.stage is Health,
        r.wf(),
        !(ready is Failed),
        events.len() < r.files.len(),
    ensures
        ({
            let now = r.after(ready).after_all(events);
            &&& now.stage is Upload
            &&& now.action() == TestActionView::Upload(
                request_url(r.base_url, "/api/v1/upload"@),
                r.files[events.len() as int],
            )
            &&& now.uploaded == accepted(events)
        }),
{
    lemma_uploading(r, ready, events);
}

proof fn lemma_uploading(r: TestRunView, ready: TestEventView, events: Seq<TestEventView>)
    requires
        r.stage is Health,
        r.wf(),
        !(ready is Failed),
        events.len() < r.files.len(),
    ensures
        ({
            let now = r.after(ready).after_all(events);
            &&& now.stage is Upload
            &&& now.next == events.len()
            &&& now.files == r.files
            &&& now.base_url == r.base_url
            &&& now.interval_ms == r.interval_ms
            &&& now.uploaded == accepted(events)
        }),
    decreases events.len(),
{
    if events.len() > 0 {
        lemma_uploading(r, ready, events.drop_last());
    } else {
        assert(r.uploaded =~= seq![]);
    }
}

/// Once all files are uploaded, every upload that counted is built, one after the other, whatever
/// became of those before it, and then the run is done.
pub proof fn law_every_upload_is_built(
    r: TestRunView,
    ready: TestEventView,
    uploads: Seq<TestEventView>,
    builds: Seq<TestEventView>,
)
    requires
        r.stage is Health,
        r.wf(),
        !(ready is Failed),
        0 < uploads.len() == r.files.len(),
        builds.len() <= accepted(uploads).len(),
    ensures
        ({
            let now = r.after(ready).after_all(uploads).after_all(builds);
            if builds.len() < accepted(uploads).len() {
                now.action() == TestActionView::Build(
                    request_url(r.base_url, "/api/v1/build"@),
                    accepted(uploads)[builds.len() as int],
                )
            } else {
                now.action() is Done
            }
        }),
{
    lemma_uploading(r, ready, uploads.drop_last());
    lemma_building(r.after(ready).after_all(uploads), builds);
}

proof fn lemma_building(r: TestRunView, events: Seq<TestEventView>)
    requires
        r.stage is Build || r.stage is Done,
        r.stage is Build <==> r.uploaded.len() > 0,
        r.next == 0,
        events.len() <= r.uploaded.len(),
    ensures
        ({
            let now = r.after_all(events);
            &&& now.next == events.len()
            &&& now.uploaded == r.uploaded
            &&& now.base_url == r.base_url
            &&& now.stage is Build <==> events.len() < r.uploaded.len()
            &&& now.stage is Done <==> events.len() == r.uploaded.len()
        }),
    decreases events.len(),
{
    if events.len() > 0 {
        lemma_building(r, events.drop_last());
    }
}

/// A service that does not answer is asked thirty times, and then given up; the first answer ends
/// that.
pub proof fn law_health_is_asked_for(r: TestRunView, failures: Seq<TestEventView>)
    requires
        r.stage is Health,
        r.wf(),
        r.tried == 0,
        failures.len() <= 30,
        forall|i: int| 0 <= i < failures.len() ==> (#[trigger] failures[i]) is Failed,
    ensures
        ({
            let now = r.after_all(failures);
            &&& now.tried == failures.len()
            &&& now.stage is Health <==> failures.len() < 30
            &&& now.stage is Unready <==> failures.len() == 30
            &&& now.files == r.files && now.uploaded == r.uploaded && now.next == r.next
        }),
    decreases failures.len(),
{
    if failures.len() > 0 {
        let init = failures.drop_last();
        assert forall|i: int| 0 <= i < init.len() implies (#[trigger] init[i]) is Failed by {
            assert(init[i] == failures[i]);
        }
        law_health_is_asked_for(r, init);
        assert(failures[failures.len() - 1] is Failed);
    }
}

/// A task that a build request is answered with is watched, whatever the code of the answer, and
/// the run pauses after every answer as long as it was told to.
pub proof fn law_builds_are_watched(r: TestRunView, code: i32, id: Seq<char>)
    requires
        r.stage is Build,
    ensures
        r.watched_after(TestEventView::Answered(code, id)) == Some(id),
        r.watched_after(TestEventView::Failed) is None,
        r.watched_after(TestEventView::Unreadable) is None,
        r.pause_after(TestEventView::Answered(code, id)) == r.interval_ms,
        r.pause_after(TestEventView::Unreadable) == r.interval_ms,
        r.pause_after(TestEventView::Failed) == 0,
{
}

/// Starts a self-test.
pub fn run_build_test_via_api(base_url: String, file_paths: Vec<String>, interval_ms: u64) -> (r:
    BuildTestRun)
    ensures
        r@ == (TestRunView {
            base_url: base_url@,
            files: texts(file_paths@),
            interval_ms,
            stage: TestStage::Health,
            tried: 0,
            next: 0,
            uploaded: seq![],
        }),
        r@.wf(),
{
    let r = BuildTestRun {
        base_url,
        files: file_paths,
        interval_ms,
        stage: TestStage::Health,
        tried: 0,
        next: 0,
        uploaded: Vec::new(),
    };
    assert(r@.uploaded =~= seq![]);
    r
}

impl BuildTestRun {
    /// What has to be done next.
    pub fn next_action(&self) -> (r: TestAction)
        requires
            self@.wf(),
        ensures
            r@ == self@.action(),
    {
        match self.stage {
            TestStage::Health => TestAction::AskHealth(health_url(self.base_url.as_str())),
            TestStage::Upload => {
                assert(self@.files[self@.next] == self.files@[self.next as int]@);
                TestAction::Upload(
                    upload_url(self.base_url.as_str()),
                    self.files[self.next].clone(),
                )
            },
            TestStage::Build => {
                assert(self@.uploaded[self@.next] == self.uploaded@[self.next as int]@);
                TestAction::Build(
                    build_url(self.base_url.as_str()),
                    self.uploaded[self.next].clone(),
                )
            },
            TestStage::Done => TestAction::Done,
            TestStage::Unready => TestAction::Unready,
        }
    }

    fn go_on_building(&mut self)
        ensures
            final(self)@ == old(self)@.building(),
    {
        self.stage = if self.next < self.uploaded.len() {
            TestStage::Build
        } else {
            TestStage::Done
        };
    }

    fn go_on_uploading(&mut self)
        ensures
            final(self)@ == old(self)@.uploading(),
    {
        if self.next < self.files.len() {
            self.stage = TestStage::Upload;
        } else {
            self.next = 0;
            self.go_on_building();
        }
    }

    /// A request had an outcome.
    pub fn receive(&mut self, event: TestEvent) -> (r: TestEffect)
        requires
            old(self)@.wf(),
        ensures
            final(self)@ == old(self)@.after(event@),
            final(self)@.wf(),
            r.pause_ms == old(self)@.pause_after(event@),
            opt_text(r.watch) == old(self)@.watched_after(event@),
    {
        broadcast use texts_push;

        match self.stage {
            TestStage::Health => match event {
                TestEvent::Failed => {
                    self.tried = self.tried + 1;
                    match wait_for_health(self.tried, false) {
                        WaitStep::GiveUp(ms) => {
                            self.stage = TestStage::Unready;
                            TestEffect { pause_ms: ms, watch: None }
                        },
                        WaitStep::Again(ms) => TestEffect { pause_ms: ms, watch: None },
                        WaitStep::Ready => TestEffect { pause_ms: 0, watch: None },
                    }
                },
                _ => {
                    self.go_on_uploading();
                    TestEffect { pause_ms: 0, watch: None }
                },
            },
            TestStage::Upload => {
                assert(self.next < self.files.len());
                if let TestEvent::Answered(code, id) = event {
                    if upload_counts(true, Some(code)) {
                        self.uploaded.push(id);
                    }
                }
                self.next = self.next + 1;
                self.go_on_uploading();
                TestEffect { pause_ms: 0, watch: None }
            },
            TestStage::Build => {
                assert(self.next < self.uploaded.len());
                self.next = self.next + 1;
                self.go_on_building();
                match event {
                    TestEvent::Failed => TestEffect { pause_ms: 0, watch: None },
                    TestEvent::Unreadable => TestEffect {
                        pause_ms: self.interval_ms,
                        watch: None,
                    },
                    TestEvent::Answered(_, id) => TestEffect {
                        pause_ms: self.interval_ms,
                        watch: Some(id),
                    },
                }
            },
            _ => TestEffect { pause_ms: 0, watch: None },
        }
    }
}

/// The states in which a task has ended.
pub open spec fn has_ended(status: TaskStatus) -> bool {
    !(status is Queued) && !(status is Processing)
}

/// How often the self-test asks for a task.
pub const MOST_POLLS: u32 = 600;

/// The watch over a task.
#[derive(Clone, Copy, Debug, PartialEq, Eq, Structural)]
pub struct Monitor {
    /// How often the task was asked for.
    asked: u32,
    /// The state in which the task ended, once it is known.
    ended: Option<TaskStatus>,
}

pub struct MonitorView {
    pub asked: int,
    pub ended: Option<TaskStatus>,
}

impl View for Monitor {
    type V = MonitorView;

    closed spec fn view(&self) -> MonitorView {
        MonitorView { asked: self.asked as int, ended: self.ended }
    }
}

impl MonitorView {
    /// The watch is over: the task has ended, or was asked for often enough.
    pub open spec fn over(self) -> bool {
        self.ended is Some || self.asked >= MOST_POLLS
    }

    /// The watch after the task was asked for, and its state could be read or not.
    pub open spec fn after(self, status: Option<TaskStatus>) -> MonitorView {
        if self.over() {
            self
        } else {
            MonitorView {
                asked: self.asked + 1,
                ended: match status {
                    Some(s) => if has_ended(s) {
                        Some(s)
                    } else {
                        None
                    },
                    None => None,
                },
            }
        }
    }

    /// The watch after all the answers of a list.
    pub open spec fn after_all(self, answers: Seq<Option<TaskStatus>>) -> MonitorView
        decreases answers.len(),
    {
        if answers.len() == 0 {
            self
        } else {
            self.after_all(answers.drop_last()).after(answers.last())
        }
    }
}

fn ended(status: TaskStatus) -> (r: bool)
    ensures
        r == has_ended(status),
{
    match status {
        TaskStatus::Queued => false,
        TaskStatus::Processing => false,
        _ => true,
    }
}

/// Starts to watch a task.
pub fn monitor_build_task() -> (r: Monitor)
    ensures
        r@ == (MonitorView { asked: 0, ended: None }),
{
    Monitor { asked: 0, ended: None }
}

impl Monitor {
    /// Whether the watch is over.
    pub fn over(&self) -> (r: bool)
        ensures
            r == self@.over(),
    {
        self.ended.is_some() || self.asked >= MOST_POLLS
    }

    /// The task was asked for, and its state could be read or not. Tells for how many seconds to
    /// wait then.
    pub fn receive(&mut self, status: Option<TaskStatus>) -> (pause: u64)
        ensures
            final(self)@ == old(self)@.after(status),
            pause == if final(self)@.ended is Some {
                0u64
            } else {
                3u64
            },
    {
        if !self.over() {
            self.asked = self.asked + 1;
            if let Some(s) = status {
                if ended(s) {
                    self.ended = Some(s);
                }
            }
        }
        if self.ended.is_some() {
            0
        } else {
            3
        }
    }

    /// Whether the package of the task is downloaded after the watch.
    pub fn downloads(&self) -> (r: bool)
        ensures
            r == (self@.ended == Some(TaskStatus::Success)),
    {
        match self.ended {
            Some(TaskStatus::Success) => true,
            _ => false,
        }
    }
}

/// A task has ended in every state but waiting and running.
pub proof fn law_ended_states(status: TaskStatus)
    ensures
        has_ended(status) <==> status is Success || status is UnknownError || status
            is CompilationFailed || status is Timeout || status is Cancelled,
{
}

/// The watch over a task ends, whatever the answers, and at the first that tells that the task has
/// ended.
pub proof fn law_watch_ends(answers: Seq<Option<TaskStatus>>)
    ensures
        ({
            let w = (MonitorView { asked: 0, ended: None }).after_all(answers);
            &&& 0 <= w.asked <= answers.len()
            &&& w.ended is Some ==> 1 <= w.asked
            &&& w.asked <= MOST_POLLS
            &&& answers.len() >= MOST_POLLS ==> w.over()
            &&& answers.len() < 600 && w.ended is None ==> !w.over()
            &&& answers.len() >= 600 ==> w.over()
            &&& !w.over() ==> w.asked == answers.len()
            &&& w.ended matches Some(s) ==> has_ended(s) && answers[w.asked - 1] == Some(s)
            &&& forall|i: int|
                0 <= i < w.asked - 1 ==> !((#[trigger] answers[i]) matches Some(s) && has_ended(s))
            &&& w.ended is None ==> forall|i: int|
                0 <= i < w.asked ==> !((#[trigger] answers[i]) matches Some(s) && has_ended(s))
        }),
    decreases answers.len(),
{
    if answers.len() > 0 {
        let init = answers.drop_last();
        law_watch_ends(init);
        assert(forall|i: int| 0 <= i < init.len() ==> init[i] == #[trigger] answers[i]);
        let before = (MonitorView { asked: 0, ended: None }).after_all(init);
        if before.ended is Some {
            assert(answers[before.asked - 1] == init[before.asked - 1]);
        }
        assert(answers[answers.len() - 1] == answers.last());
    }
}

} // verus!
