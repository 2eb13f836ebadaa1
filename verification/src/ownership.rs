use vstd::prelude::*;

use crate::parse::{
    line_end, lemma_line_end_bounds, lemma_line_end_locate, parse_pid, parse_unsigned,
    trim_bounds, trimmed,
};

verus! {

/// Process Ownership Resolver.
///
/// Decides whether the process currently holding a port is one of the
/// processes registered under a given application name, by cross-referencing
/// the text two external inventory queries print: a port-to-process query
/// that names the holding process id, and an application-to-process query
/// that lists the application's registered ids one per line. The queries
/// themselves run outside this crate; their raw standard output (or `None`
/// for a query that failed or exited non-zero) is handed in. Every failure
/// degrades to `false` — "not confirmed as owned" — and never to an error,
/// so a broken inventory tool can never block an assignment run.

/// The first line of a query's output.
pub open spec fn first_line(s: Seq<u8>) -> Seq<u8> {
    s.subrange(0, line_end(s, 0))
}

/// The process id holding the port, read from the port query's output:
/// the first line, trimmed, as a 32-bit id.
pub open spec fn holder_pid_spec(out: Seq<u8>) -> Option<u32> {
    parse_pid(trimmed(first_line(out)))
}

/// The application's registered process ids, read from the app query's
/// output: every line that, trimmed, is a 32-bit id, in order.
pub open spec fn app_pids_from(s: Seq<u8>, pos: int) -> Seq<u32>
    decreases s.len() - pos when 0 <= pos via app_pids_from_decreases
{
    if pos >= s.len() {
        Seq::empty()
    } else {
        let e = line_end(s, pos);
        let rest = if e >= s.len() {
            Seq::<u32>::empty()
        } else {
            app_pids_from(s, e + 1)
        };
        match parse_pid(trimmed(s.subrange(pos, e))) {
            Some(pid) => seq![pid] + rest,
            None => rest,
        }
    }
}

#[via_fn]
proof fn app_pids_from_decreases(s: Seq<u8>, pos: int) {
    if 0 <= pos < s.len() {
        lemma_line_end_bounds(s, pos);
    }
}

/// All registered ids in the app query's output.
pub open spec fn app_pids_spec(s: Seq<u8>) -> Seq<u32> {
    app_pids_from(s, 0)
}

/// The view of an optional query output.
pub open spec fn view_opt(o: Option<&Vec<u8>>) -> Option<Seq<u8>> {
    match o {
        Some(v) => Some(v@),
        None => None,
    }
}

/// The resolver's verdict over the two raw outputs: `true` exactly when
/// both queries answered, the port query names an id, and that id appears
/// among the application's registered ids.
pub open spec fn owned_spec(port_query: Option<Seq<u8>>, app_query: Option<Seq<u8>>) -> bool {
    match (port_query, app_query) {
        (Some(p), Some(a)) => match holder_pid_spec(p) {
            Some(pid) => app_pids_spec(a).contains(pid),
            None => false,
        },
        _ => false,
    }
}

/// Reads the holding process id out of the port query's output, if its
/// first line carries one.
pub fn parse_holder_pid(out: &Vec<u8>) -> (r: Option<u32>)
    ensures
        r == holder_pid_spec(out@),
{
    let n = out.len();
    let mut e: usize = 0;
    while e < n && out[e] != 10
        invariant
            e <= n == out.len(),
            forall|j: int| 0 <= j < e ==> out@[j] != 10,
        decreases n - e,
    {
        e += 1;
    }
    proof {
        lemma_line_end_locate(out@, 0, e as int);
    }
    let bounds = trim_bounds(out, 0, e);
    let v = parse_unsigned(out, bounds.0, bounds.1, 4294967295);
    match v {
        Some(x) => Some(x as u32),
        None => None,
    }
}

/// Collects the application's registered process ids out of the app
/// query's output.
pub fn parse_app_pids(out: &Vec<u8>) -> (r: Vec<u32>)
    ensures
        r@ == app_pids_spec(out@),
{
    let n = out.len();
    let mut res: Vec<u32> = Vec::new();
    let mut pos: usize = 0;
    proof {
        assert(res@ + app_pids_from(out@, 0) =~= app_pids_from(out@, 0));
    }
    while pos < n
        invariant
            pos <= n == out.len(),
            app_pids_spec(out@) == res@ + app_pids_from(out@, pos as int),
        decreases n - pos,
    {
        let ghost res0 = res@;
        let mut e: usize = pos;
        while e < n && out[e] != 10
            invariant
                pos <= e <= n == out.len(),
                forall|j: int| pos <= j < e ==> out@[j] != 10,
            decreases n - e,
        {
            e += 1;
        }
        proof {
            lemma_line_end_locate(out@, pos as int, e as int);
        }
        let bounds = trim_bounds(out, pos, e);
        let v = parse_unsigned(out, bounds.0, bounds.1, 4294967295);
        let ghost piece = match parse_pid(trimmed(out@.subrange(pos as int, e as int))) {
            Some(pid) => seq![pid],
            None => Seq::<u32>::empty(),
        };
        match v {
            Some(x) => {
                res.push(x as u32);
                proof {
                    assert(res@ =~= res0 + piece);
                }
            },
            None => {
                proof {
                    assert(res@ =~= res0 + piece);
                }
            },
        }
        if e >= n {
            proof {
                assert(app_pids_from(out@, pos as int) =~= piece);
                assert(res0 + app_pids_from(out@, pos as int) =~= res@ + app_pids_from(
                    out@,
                    n as int,
                ));
            }
            pos = n;
        } else {
            proof {
                assert(app_pids_from(out@, pos as int) =~= piece + app_pids_from(out@, e + 1));
                assert(res0 + app_pids_from(out@, pos as int) =~= res@ + app_pids_from(
                    out@,
                    e + 1,
                ));
            }
            pos = e + 1;
        }
    }
    proof {
        assert(app_pids_from(out@, pos as int) =~= Seq::<u32>::empty());
        assert(res@ + Seq::<u32>::empty() =~= res@);
    }
    res
}

/// Whether the holding id appears among the registered ids.
pub fn pid_is_registered(pids: &Vec<u32>, pid: u32) -> (r: bool)
    ensures
        r == pids@.contains(pid),
{
    let n = pids.len();
    let mut i: usize = 0;
    while i < n
        invariant
            i <= n == pids.len(),
            forall|j: int| 0 <= j < i ==> pids@[j] != pid,
        decreases n - i,
    {
        if pids[i] == pid {
            return true;
        }
        i += 1;
    }
    false
}

/// The resolver's verdict from the two raw query outputs (`None` for a
/// query that failed or exited non-zero): `true` exactly when the port's
/// holder id appears in the application's registered id set, and `false`
/// on every degraded path.
pub fn ownership_from_outputs(port_query: Option<&Vec<u8>>, app_query: Option<&Vec<u8>>) -> (r:
    bool)
    ensures
        r == owned_spec(view_opt(port_query), view_opt(app_query)),
{
    match (port_query, app_query) {
        (Some(p), Some(a)) => {
            match parse_holder_pid(p) {
                Some(pid) => {
                    let pids = parse_app_pids(a);
                    pid_is_registered(&pids, pid)
                },
                None => false,
            }
        },
        _ => false,
    }
}

} // verus!
