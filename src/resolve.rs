//! Resolving a pid that a device reported to its owner and command, with the
//! namespace mapping as the way to a host pid.
use vstd::prelude::*;
use vstd::string::*;
use crate::nsmap::NamespaceMap;
use procfs::process::Process;

verus! {

#[verifier::external_type_specification]
#[verifier::external_body]
pub struct ExProcess(procfs::process::Process);

/// What `Path::file_name` gives for a path, as text.
pub uninterp spec fn base_name(path: Seq<char>) -> Option<Seq<char>>;

/// Relies on procfs's `Process::new`: the process of a host pid, when its
/// entry can be read.
#[verifier::external_body]
fn open_process(pid: u32) -> Option<Process> {
    Process::new(pid as i32).ok()
}

/// Relies on procfs's `Process::uid`: the id of the process's owner.
#[verifier::external_body]
fn process_uid(p: &Process) -> Option<u32> {
    p.uid().ok()
}

/// Relies on procfs's `Process::cmdline`: the process's arguments.
#[verifier::external_body]
fn process_cmdline(p: &Process) -> Option<Vec<String>> {
    p.cmdline().ok()
}

/// Relies on procfs's `Process::stat`: the short name (`comm`) of the process.
#[verifier::external_body]
fn process_comm(p: &Process) -> Option<String> {
    p.stat().ok().map(|s| s.comm)
}

/// Relies on users's `get_user_by_uid`: the name of a user id, when the
/// system knows it.
#[verifier::external_body]
fn user_name(uid: u32) -> Option<String> {
    users::get_user_by_uid(uid).and_then(|u| u.name().to_str().map(|s| s.to_string()))
}

/// Relies on `Path::file_name`: the last component of a path, which depends
/// on the path's text alone; a component is never empty.
#[verifier::external_body]
fn file_name(path: &str) -> (r: Option<String>)
    ensures
        match r {
            Some(s) => base_name(path@) == Some(s@) && s@.len() > 0,
            None => base_name(path@) is None,
        },
{
    std::path::Path::new(path).file_name().and_then(|n| n.to_str()).map(|s| s.to_string())
}

/// The placeholder for a command that could not be found.
pub open spec fn unknown_command() -> Seq<char> {
    "?"@
}

fn unknown() -> (r: String)
    ensures
        r@ == unknown_command(),
{
    String::from_str("?")
}

pub open spec fn arg_views(args: Option<Vec<String>>) -> Option<Seq<Seq<char>>> {
    match args {
        Some(a) => Some(a@.map_values(|s: String| s@)),
        None => None,
    }
}

/// The command of a process: the base name of its first argument, or its
/// short name when it has no arguments, or `"?"` when neither is known (an
/// empty short name counts as unknown).
pub open spec fn command_spec(args: Option<Seq<Seq<char>>>, comm: Option<Seq<char>>) -> Seq<char> {
    match args {
        None => unknown_command(),
        Some(a) => if a.len() == 0 {
            match comm {
                Some(c) => if c.len() > 0 { c } else { unknown_command() },
                None => unknown_command(),
            }
        } else {
            match base_name(a[0]) {
                Some(b) => b,
                None => unknown_command(),
            }
        },
    }
}

/// Picks the command of a process from its arguments and short name.
pub fn command_of(args: &Option<Vec<String>>, comm: Option<String>) -> (r: String)
    ensures
        r@ == command_spec(arg_views(*args), match comm {
            Some(c) => Some(c@),
            None => None,
        }),
        r@.len() > 0,
{
    proof { reveal_strlit("?"); }
    match args {
        None => unknown(),
        Some(a) => if a.len() == 0 {
            match comm {
                Some(c) => if c.as_str().unicode_len() > 0 { c } else { unknown() },
                None => unknown(),
            }
        } else {
            match file_name(a[0].as_str()) {
                Some(b) => b,
                None => unknown(),
            }
        },
    }
}

/// The owner and command of a host pid; `(None, "?")` when the process
/// cannot be read. The short name is read only for a process without
/// arguments.
fn lookup(pid: u32) -> (r: (Option<String>, String))
    ensures
        r.1@.len() > 0,
{
    proof { reveal_strlit("?"); }
    match open_process(pid) {
        None => (None, unknown()),
        Some(p) => {
            let user = match process_uid(&p) {
                Some(uid) => user_name(uid),
                None => None,
            };
            let args = process_cmdline(&p);
            let comm = match &args {
                Some(a) => if a.len() == 0 { process_comm(&p) } else { None },
                None => None,
            };
            (user, command_of(&args, comm))
        },
    }
}

/// What the resolver reports: owner and command as found, the mapping
/// marked as used exactly when the pid was remapped and the command found,
/// and the host pid only then.
pub open spec fn attribution_ok(
    remap: Option<u32>,
    found: (Option<String>, String),
    r: (Option<String>, String, bool, Option<u32>),
) -> bool {
    &&& r.0 == found.0
    &&& r.1@ == found.1@
    &&& r.2 == (remap is Some && found.1@ != unknown_command())
    &&& r.3 == (if r.2 { remap } else { None })
}

/// Completes an attribution from the lookup of the pid or of its remap
/// target.
pub fn finish_attribution(remap: Option<u32>, found: (Option<String>, String)) -> (r: (
    Option<String>,
    String,
    bool,
    Option<u32>,
))
    ensures
        attribution_ok(remap, found, r),
{
    let (user, command) = found;
    let q = unknown();
    let via = match remap {
        Some(_) => !(command == q),
        None => false,
    };
    let host = if via { remap } else { None };
    (user, command, via, host)
}

/// The host pid to read instead of `pid`: the mapping's target, when the
/// mapping has `pid` and maps it elsewhere.
pub open spec fn remap_spec(pid: u32, mapping: Map<u32, u32>) -> Option<u32> {
    if mapping.contains_key(pid) && mapping[pid] != pid {
        Some(mapping[pid])
    } else {
        None
    }
}

/// Decides whether a reported pid is read through the namespace mapping.
pub fn remap_of(pid: u32, mapping: &NamespaceMap) -> (r: Option<u32>)
    ensures
        r == remap_spec(pid, mapping@),
{
    match mapping.get(pid) {
        Some(host) => if host != pid { Some(host) } else { None },
        None => None,
    }
}

/// Resolves a pid that a device reported: the owner's name, the command,
/// whether the namespace mapping was used, and the host pid when it was.
/// The process read is `remap_of(pid)` when there is one, else `pid`; what
/// the direct pid would give is then not used. Never fails: what cannot be
/// found is `None` or `"?"`.
pub fn get_process_info(pid: u32, mapping: &NamespaceMap) -> (r: (
    Option<String>,
    String,
    bool,
    Option<u32>,
))
    ensures
        r.2 == (remap_spec(pid, mapping@) is Some && r.1@ != unknown_command()),
        r.3 == (if r.2 { remap_spec(pid, mapping@) } else { None }),
        r.1@.len() > 0,
{
    let remap = remap_of(pid, mapping);
    let found = match remap {
        Some(host) => lookup(host),
        None => lookup(pid),
    };
    finish_attribution(remap, found)
}

} // verus!
