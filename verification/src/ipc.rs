//! The local IPC protocol between a running TUI and its clients
//! (`termassist read-pane`, a nested `termassist`): one request, one
//! response. This module holds the messages and what the server answers;
//! the transport is the caller's.

use vstd::prelude::*;
use crate::text::{decimal, push_decimal, push_str, chars_of};

verus! {

/// A client's request.
#[derive(Debug, Clone, PartialEq, Eq, Structural)]
pub enum Request {
    /// Read a pane's text. `pane`: 0 = left/top (user shell), 1 =
    /// right/bottom (agent); `lines`: only the last so many lines.
    ReadPane { pane: usize, lines: Option<usize> },
    /// Ensure the agent pane exists: respawn it if closed, focus it if open.
    OpenAgent,
}

/// The server's response.
#[derive(Debug)]
pub struct Response {
    pub ok: bool,
    pub text: String,
    pub error: Option<String>,
}

impl Response {
    /// A successful response carrying `text`.
    pub fn success(text: String) -> (r: Response)
        ensures
            r.ok,
            r.text == text,
            r.error is None,
    {
        Response { ok: true, text, error: None }
    }

    /// A failed response carrying the error message `error`.
    pub fn failure(error: String) -> (r: Response)
        ensures
            !r.ok,
            r.text@ == Seq::<char>::empty(),
            r.error == Some(error),
    {
        Response { ok: false, text: String::new(), error: Some(error) }
    }
}

/// The error for a read of pane `pane` when `open[i]` says whether pane
/// `i` is open: `no pane <n>` for an index other than 0 and 1, `pane closed`
/// for a pane that is gone; none when the pane can be read.
pub open spec fn read_error(pane: usize, open: [bool; 2]) -> Option<Seq<char>> {
    if pane >= 2 {
        Some("no pane "@ + decimal(pane as nat))
    } else if !open[pane as int] {
        Some("pane closed"@)
    } else {
        None
    }
}

/// The failed response to a pane read that cannot be served, or `None`
/// when the pane is open and its text should be captured and sent with
/// `Response::success`.
pub fn read_pane_refusal(pane: usize, open: &[bool; 2]) -> (r: Option<Response>)
    ensures
        match read_error(pane, *open) {
            Some(e) => r matches Some(resp) && !resp.ok && resp.text@ == Seq::<char>::empty()
                && (resp.error matches Some(m) && m@ == e),
            None => r is None,
        },
{
    if pane >= 2 {
        let mut m = String::new();
        push_str(&mut m, "no pane ");
        push_decimal(&mut m, pane as u64);
        Some(Response::failure(m))
    } else if !open[pane] {
        Some(Response::failure(String::from_str("pane closed")))
    } else {
        None
    }
}

/// The response to an open-agent request, given the TUI's reply (`None`
/// when it did not answer in time).
pub fn open_agent_response(reply: Option<String>) -> (r: Response)
    ensures
        match reply {
            Some(m) => r.ok && r.text == m && r.error is None,
            None => !r.ok && r.text@ == Seq::<char>::empty() && (r.error matches Some(e) && e@
                == "tui did not respond"@),
        },
{
    match reply {
        Some(m) => Response::success(m),
        None => Response::failure(String::from_str("tui did not respond")),
    }
}

/// What a client makes of a response: the text when it succeeded, else the
/// error message (`unknown error` when there is none).
pub fn response_result(resp: Response) -> (r: Result<String, String>)
    ensures
        resp.ok ==> r == Ok::<String, String>(resp.text),
        !resp.ok ==> (r matches Err(e) && e@ == match resp.error {
            Some(m) => m@,
            None => "unknown error"@,
        }),
{
    if resp.ok {
        Ok(resp.text)
    } else {
        match resp.error {
            Some(m) => Err(m),
            None => Err(String::from_str("unknown error")),
        }
    }
}

/// `termassist-<pid>`: the name of the instance with process id `pid`
/// (a named pipe's name on Windows).
pub fn instance_name(pid: u32) -> (r: String)
    ensures
        r@ == "termassist-"@ + decimal(pid as nat),
{
    let mut m = String::new();
    push_str(&mut m, "termassist-");
    push_decimal(&mut m, pid as u64);
    m
}

/// `termassist-<pid>.sock`: the socket file name of an instance (in the
/// temporary directory).
pub fn socket_file_name(pid: u32) -> (r: String)
    ensures
        r@ == "termassist-"@ + decimal(pid as nat) + ".sock"@,
{
    let mut m = instance_name(pid);
    push_str(&mut m, ".sock");
    m
}

/// Whether a file name looks like an instance's socket:
/// `termassist-*.sock`.
pub open spec fn is_socket_name(name: Seq<char>) -> bool {
    &&& name.len() >= 11
    &&& name.take(11) == "termassist-"@
    &&& name.len() >= 5
    &&& name.skip(name.len() - 5) == ".sock"@
}

/// Whether a file name looks like an instance's socket.
pub fn is_socket_file(name: &str) -> (r: bool)
    ensures
        r == is_socket_name(name@),
{
    let cs = chars_of(name);
    let pre = chars_of("termassist-");
    let suf = chars_of(".sock");
    if cs.len() < 11 || cs.len() < 5 {
        return false;
    }
    let a = crate::text::slice_to_vec(cs.as_slice(), 0, 11);
    let b = crate::text::slice_to_vec(cs.as_slice(), cs.len() - 5, cs.len());
    assert(cs@.subrange(0, 11) =~= cs@.take(11));
    assert(cs@.subrange(cs.len() - 5, cs.len() as int) =~= cs@.skip(cs.len() - 5));
    crate::text::chars_eq(a.as_slice(), pre.as_slice()) && crate::text::chars_eq(
        b.as_slice(),
        suf.as_slice(),
    )
}

/// A directory entry seen while looking for a running instance.
#[derive(Debug)]
pub struct SocketEntry {
    /// The file name.
    pub name: String,
    /// The full path.
    pub path: String,
    /// The modification time (nanoseconds from the Unix epoch), if it could
    /// be read.
    pub mtime: Option<i128>,
}

/// Whether an entry is a candidate: a socket name with a known time.
pub open spec fn candidate(e: SocketEntry) -> bool {
    is_socket_name(e.name@) && e.mtime is Some
}

/// The newest candidate among `es` as (time, path): scanning in order, an
/// entry replaces the best so far only when strictly newer.
pub open spec fn newest(es: Seq<SocketEntry>) -> Option<(i128, Seq<char>)>
    decreases es.len(),
{
    if es.len() == 0 {
        None
    } else {
        let best = newest(es.drop_last());
        let e = es.last();
        if candidate(e) && (best is None || e.mtime.unwrap() > best.unwrap().0) {
            Some((e.mtime.unwrap(), e.path@))
        } else {
            best
        }
    }
}

/// Best-effort discovery of a running instance's socket among the entries
/// of the temporary directory: the path of the newest `termassist-*.sock`
/// (the first of equally new ones).
pub fn discover_socket(entries: &Vec<SocketEntry>) -> (r: Option<String>)
    ensures
        match newest(entries@) {
            Some((_, p)) => r matches Some(s) && s@ == p,
            None => r is None,
        },
{
    let mut best: Option<(i128, usize)> = None;
    let mut i: usize = 0;
    while i < entries.len()
        invariant
            i <= entries.len(),
            match newest(entries@.take(i as int)) {
                Some((t, p)) => best matches Some((bt, bi)) && bt == t && bi < i && entries@[bi as int].path@
                    == p,
                None => best is None,
            },
        decreases entries.len() - i,
    {
        let e = &entries[i];
        proof {
            assert(entries@.take(i + 1).drop_last() =~= entries@.take(i as int));
            assert(entries@.take(i + 1).last() == *e);
        }
        if is_socket_file(e.name.as_str()) {
            if let Some(t) = e.mtime {
                let better = match best {
                    None => true,
                    Some((bt, _)) => t > bt,
                };
                if better {
                    best = Some((t, i));
                }
            }
        }
        i = i + 1;
    }
    assert(entries@.take(entries.len() as int) =~= entries@);
    match best {
        Some((_, bi)) => Some(entries[bi].path.clone()),
        None => None,
    }
}

/// The socket found is the newest: it is a candidate, no candidate is
/// newer, and there is none only when no entry is a candidate.
pub proof fn law_discover_newest(es: Seq<SocketEntry>)
    ensures
        newest(es) is None <==> (forall|i: int| 0 <= i < es.len() ==> !candidate(#[trigger] es[i])),
        newest(es) matches Some((t, p)) ==> (exists|i: int|
            0 <= i < es.len() && candidate(#[trigger] es[i]) && es[i].mtime == Some(t) && es[i].path@ == p),
        newest(es) matches Some((t, _)) ==> (forall|i: int|
            0 <= i < es.len() && candidate(#[trigger] es[i]) ==> es[i].mtime.unwrap() <= t),
    decreases es.len(),
{
    if es.len() > 0 {
        let d = es.drop_last();
        law_discover_newest(d);
        assert forall|i: int| 0 <= i < d.len() implies #[trigger] d[i] == es[i] by {}
        let best = newest(d);
        let e = es.last();
        if candidate(e) && (best is None || e.mtime.unwrap() > best.unwrap().0) {
            assert(es[es.len() - 1] == e);
        } else if best is Some {
            let (t, p) = best.unwrap();
            let w = choose|i: int|
                0 <= i < d.len() && candidate(#[trigger] d[i]) && d[i].mtime == Some(t) && d[i].path@ == p;
            assert(es[w] == d[w]);
        }
        if newest(es) is Some {
            let t = newest(es).unwrap().0;
            assert forall|i: int| 0 <= i < es.len() && candidate(#[trigger] es[i]) implies es[i].mtime.unwrap()
                <= t by {
                if i < es.len() - 1 {
                    assert(es[i] == d[i]);
                }
            }
        }
        if newest(es) is None {
            assert forall|i: int| 0 <= i < es.len() implies !candidate(#[trigger] es[i]) by {
                if i < es.len() - 1 {
                    assert(es[i] == d[i]);
                }
            }
        }
    }
}

} // verus!
