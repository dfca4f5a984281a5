//! Answers, client addresses, and where the entries of an archive go.
use crate::path::slash::{
    law_components_joined, lemma_leaves_at_once, lemma_resolved, lemma_resolved_as_they_are,
    lemma_step_and_back, lemma_steps_of, resolved, steps,
};
use crate::path::{
    join_path, law_joined_on_unix, lemma_unix, parent, path_components, path_joined, path_parent, path_rest, path_stays_below,
    stays_below, System,
};
use crate::text::{
    ends_with, law_split_last, lemma_split, opt_str, opt_text, rsplit_once, split_last,
    split_seq, texts, to_chars,
};
use vstd::prelude::*;

verus! {

/// The body of an answer that succeeds.
#[derive(Debug)]
pub struct ApiResponse<T> {
    pub code: i32,
    pub data: T,
}

/// An answer: its HTTP status, its headers and its body, which is sent as JSON.
#[derive(Debug)]
pub struct Reply<T> {
    pub status: u16,
    pub content_type: &'static str,
    pub api_version: &'static str,
    pub body: T,
}

impl<T> Reply<T> {
    /// A JSON answer of the present version with the given status.
    pub open spec fn json(&self, status: u16) -> bool {
        &&& self.status == status
        &&& self.content_type@ == "application/json; charset=utf-8"@
        &&& self.api_version@ == "v1"@
    }
}

pub fn reply<T>(status: u16, body: T) -> (r: Reply<T>)
    ensures
        r.json(status),
        r.body == body,
{
    Reply { status, content_type: "application/json; charset=utf-8", api_version: "v1", body }
}

pub fn json_response<T>(data: T) -> (r: Reply<ApiResponse<T>>)
    ensures
        r.json(200),
        r.body == (ApiResponse { code: 200i32, data }),
{
    reply(200, ApiResponse { code: 200, data })
}

pub fn accepted_json_response<T>(data: T) -> (r: Reply<ApiResponse<T>>)
    ensures
        r.json(202),
        r.body == (ApiResponse { code: 202i32, data }),
{
    reply(202, ApiResponse { code: 202, data })
}

// ---------------------------------------------------------------------------
// Client addresses
// ---------------------------------------------------------------------------
/// The address without the port, where the text before the last colon has a dot.
pub open spec fn without_port(address: Seq<char>) -> Seq<char> {
    match split_last(address, ':') {
        Some(p) => if p.0.contains('.') {
            p.0
        } else {
            address
        },
        None => address,
    }
}

/// The client of a request: the peer of the connection, else the address that the request names,
/// else unknown.
pub open spec fn client_ip(peer: Option<Seq<char>>, named: Option<Seq<char>>) -> Seq<char> {
    match peer {
        Some(ip) => ip,
        None => match named {
            Some(address) => without_port(address),
            None => "unknown"@,
        },
    }
}

fn has_dot(s: &str) -> (r: bool)
    ensures
        r == s@.contains('.'),
{
    let chars = to_chars(s);
    let mut i: usize = 0;
    while i < chars.len()
        invariant
            i <= chars.len(),
            chars@ == s@,
            forall|k: int| 0 <= k < i ==> s@[k] != '.',
        decreases chars.len() - i,
    {
        if chars[i] == '.' {
            assert(s@[i as int] == '.');
            return true;
        }
        i += 1;
    }
    false
}

pub fn get_client_ip(peer: Option<&str>, named: Option<&str>) -> (r: String)
    ensures
        r@ == client_ip(opt_str(peer), opt_str(named)),
{
    if let Some(ip) = peer {
        return ip.to_owned();
    }
    if let Some(address) = named {
        if let Some((ip, _port)) = rsplit_once(address, ':') {
            if has_dot(ip.as_str()) {
                return ip;
            }
        }
        return address.to_owned();
    }
    "unknown".to_owned()
}

// ---------------------------------------------------------------------------
// Archives
// ---------------------------------------------------------------------------
/// What is done with an entry of an archive.
#[derive(Debug)]
pub enum EntryAction {
    /// Make the directory with those above it.
    MakeDir(String),
    /// Make the directory `parent` with those above it where it is missing, then write the entry
    /// to `path` and give it the entry's mode.
    WriteFile { path: String, parent: Option<String> },
}

impl EntryAction {
    pub open spec fn target(&self) -> Seq<char> {
        match self {
            EntryAction::MakeDir(p) => p@,
            EntryAction::WriteFile { path, .. } => path@,
        }
    }

    /// What is to be done with the entry `name` of an archive that goes to `dest`.
    pub open spec fn is_for(&self, system: System, dest: Seq<char>, name: Seq<char>) -> bool {
        let out = path_joined(system, dest, name);
        &&& stays_under(system, dest, name)
        &&& match self {
            EntryAction::MakeDir(p) => "/"@.is_suffix_of(name) && p@ == out,
            EntryAction::WriteFile { path, parent } => {
                &&& !"/"@.is_suffix_of(name)
                &&& path@ == out
                &&& opt_text(*parent) == path_parent(system, out)
            },
        }
    }
}

/// An entry that would be written outside the destination.
#[derive(Debug)]
pub struct OutsideEntry {
    pub path: String,
}

pub fn extract_entry(system: System, dest: &str, name: &str) -> (r: Result<
    EntryAction,
    OutsideEntry,
>)
    ensures
        match r {
            Ok(a) => a.is_for(system, dest@, name@),
            Err(e) => e.path@ == path_joined(system, dest@, name@) && !stays_under(system, dest@, name@),
        },
{
    let out = join_path(system, dest, name);
    if !stays_below(system, out.as_str(), dest) {
        return Err(OutsideEntry { path: out });
    }
    if ends_with(name, "/") {
        Ok(EntryAction::MakeDir(out))
    } else {
        let parent = parent(system, out.as_str());
        Ok(EntryAction::WriteFile { path: out, parent })
    }
}

/// The entry `name` stays under `dest`: its path goes on from `dest` and never climbs above it.
pub open spec fn stays_under(system: System, dest: Seq<char>, name: Seq<char>) -> bool {
    path_stays_below(system, path_joined(system, dest, name), dest)
}

/// What is done with the entries of an archive, in order, up to the first that would be written
/// outside the destination; that entry ends the extraction with an error.
pub fn extract_zip_from_archive(system: System, names: &Vec<String>, dest: &str) -> (r: (
    Vec<EntryAction>,
    Option<OutsideEntry>,
))
    ensures
        r.0@.len() <= names@.len(),
        forall|i: int|
            0 <= i < r.0@.len() ==> (#[trigger] r.0@[i]).is_for(system, dest@, texts(names@)[i]),
        match r.1 {
            Some(e) => {
                &&& r.0@.len() < names@.len()
                &&& !stays_under(system, dest@, texts(names@)[r.0@.len() as int])
                &&& e.path@ == path_joined(system, dest@, texts(names@)[r.0@.len() as int])
            },
            None => r.0@.len() == names@.len(),
        },
{
    let mut actions: Vec<EntryAction> = Vec::new();
    let mut i: usize = 0;
    while i < names.len()
        invariant
            i <= names.len(),
            actions@.len() == i,
            forall|k: int|
                0 <= k < i ==> (#[trigger] actions@[k]).is_for(system, dest@, texts(names@)[k]),
        decreases names.len() - i,
    {
        assert(texts(names@)[i as int] == names@[i as int]@);
        match extract_entry(system, dest, names[i].as_str()) {
            Ok(a) => actions.push(a),
            Err(e) => {
                return (actions, Some(e));
            },
        }
        i += 1;
    }
    (actions, None)
}

/// Whatever is written lies under the destination: the components of its path are those of the
/// destination and then some that, with every `..` taken as a step back, name a place below it.
/// On no part of the way do they lead out of the destination.
pub proof fn law_entries_stay_under(
    system: System,
    action: EntryAction,
    dest: Seq<char>,
    name: Seq<char>,
)
    requires
        action.is_for(system, dest, name),
    ensures
        path_components(system, action.target()) == path_components(system, dest) + path_rest(
            system,
            action.target(),
            dest,
        ),
        resolved(path_rest(system, action.target(), dest)) matches Some(place) && forall|i: int|
            0 <= i < place.len() ==> (#[trigger] place[i]) != seq!['.', '.'] && place[i] != seq!['/'],
        forall|n: int|
            0 <= n <= path_rest(system, action.target(), dest).len() ==> resolved(
                #[trigger] path_rest(system, action.target(), dest).take(n),
            ) is Some,
{
    let base = path_components(system, dest);
    let all = path_components(system, action.target());
    lemma_resolved(path_rest(system, action.target(), dest));
    assert(all.subrange(0, base.len() as int) + all.skip(base.len() as int) =~= all);
}

/// The peer of a connection is the client, whatever the request names. Without a peer it is the
/// named address, without its port where that stands after the last colon of an address with a
/// dot, whatever the port is; an address without a dot before its last colon, or without a colon,
/// is taken as it stands.
pub proof fn law_client_address(
    peer: Seq<char>,
    named: Option<Seq<char>>,
    host: Seq<char>,
    port: Seq<char>,
)
    requires
        !port.contains(':'),
    ensures
        client_ip(Some(peer), named) == peer,
        host.contains('.') ==> client_ip(None, Some(host.push(':') + port)) == host,
        !host.contains('.') ==> client_ip(None, Some(host.push(':') + port)) == host.push(':')
            + port,
        client_ip(None, Some(port)) == port,
        client_ip(None, None) == "unknown"@,
{
    law_split_last(host, ':', port);
}

/// On Unix an entry whose name has no step back in it is written below the destination, at the
/// place that its name says, however many directories that leads through.
pub proof fn law_ordinary_entries_are_extracted(dest: Seq<char>, name: Seq<char>)
    requires
        dest.len() > 0,
        dest.last() != '/',
        name.len() > 0,
        name[0] != '/',
        !split_seq(name, '/').contains(seq!['.', '.']),
    ensures
        stays_under(System::Unix, dest, name),
        path_joined(System::Unix, dest, name) == dest + seq!['/'] + name,
        resolved(path_rest(System::Unix, dest + seq!['/'] + name, dest)) == Some(
            steps(split_seq(name, '/')),
        ),
{
    let pieces = split_seq(name, '/');
    lemma_entry_place(dest, name);
    lemma_split(name, '/');
    lemma_steps_of(pieces);
    lemma_resolved_as_they_are(steps(pieces));
}

/// On Unix an entry whose name steps back only from where it stepped before is written, at the place
/// that its name leads to.
pub proof fn law_steps_back_are_taken(dest: Seq<char>, a: Seq<char>, b: Seq<char>)
    requires
        dest.len() > 0,
        dest.last() != '/',
        a.len() > 0,
        !a.contains('/'),
        a != seq!['.'],
        a != seq!['.', '.'],
        b.len() > 0,
        !b.contains('/'),
        b != seq!['.'],
        b != seq!['.', '.'],
    ensures
        ({
            let name = a.push('/') + (seq!['.', '.'].push('/') + b);
            &&& stays_under(System::Unix, dest, name)
            &&& resolved(path_rest(System::Unix, dest + seq!['/'] + name, dest)) == Some(seq![b])
        }),
{
    let name = a.push('/') + (seq!['.', '.'].push('/') + b);
    lemma_step_and_back(a, b);
    if name[0] == '/' {
        assert(a[0] == '/');
        assert(a.contains('/'));
    }
    lemma_entry_place(dest, name);
}

/// On Unix an entry whose name starts with a step back is not written anywhere.
pub proof fn law_climbing_entries_are_refused(dest: Seq<char>, rest: Seq<char>)
    requires
        dest.len() > 0,
        dest.last() != '/',
    ensures
        !stays_under(System::Unix, dest, seq!['.', '.'].push('/') + rest),
        !stays_under(System::Unix, dest, seq!['.', '.']),
{
    lemma_leaves_at_once(rest);
    lemma_entry_place(dest, seq!['.', '.'].push('/') + rest);
    lemma_entry_place(dest, seq!['.', '.']);
}

proof fn lemma_entry_place(dest: Seq<char>, name: Seq<char>)
    requires
        dest.len() > 0,
        dest.last() != '/',
        name.len() > 0,
        name[0] != '/',
    ensures
        path_joined(System::Unix, dest, name) == dest + seq!['/'] + name,
        path_rest(System::Unix, dest + seq!['/'] + name, dest) == steps(split_seq(name, '/')),
        stays_under(System::Unix, dest, name) <==> resolved(steps(split_seq(name, '/'))) is Some,
{
    let out = dest + seq!['/'] + name;
    law_joined_on_unix(dest, name);
    lemma_unix(out);
    lemma_unix(dest);
    assert(out =~= dest.push('/') + name);
    law_components_joined(dest, name);
    let base = path_components(System::Unix, dest);
    let all = path_components(System::Unix, out);
    let more = steps(split_seq(name, '/'));
    assert(all =~= base + more);
    assert(all.skip(base.len() as int) =~= more);
    assert(all.subrange(0, base.len() as int) =~= base);
}

/// An entry whose name ends with a slash is a directory, and every other entry is a file, whatever
/// else their names hold. On Unix both go to the place below the destination that the name says.
pub proof fn law_entries_by_their_ends(
    action: EntryAction,
    system: System,
    dest: Seq<char>,
    name: Seq<char>,
)
    requires
        action.is_for(system, dest, name),
        name.len() > 0,
    ensures
        action is MakeDir <==> name.last() == '/',
        action is WriteFile <==> name.last() != '/',
        system is Unix && name[0] != '/' && dest.len() > 0 && dest.last() != '/' ==> action.target()
            == dest + seq!['/'] + name,
{
    reveal_strlit("/");
    let end = name.subrange(name.len() - 1, name.len() as int);
    assert(end[0] == name.last());
    if name.last() == '/' {
        assert(end =~= "/"@);
    }
    if "/"@.is_suffix_of(name) {
        assert(end =~= "/"@);
        assert("/"@[0] == '/');
    }
    if system is Unix {
        law_joined_on_unix(dest, name);
    }
}

} // verus!
