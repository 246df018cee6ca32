//! A pane as the application logic sees it: a name, the scroll position of
//! its view, whether its child process still runs, and an opaque handle to
//! the process and terminal that the caller owns.

use vstd::prelude::*;

verus! {

/// Parameters for spawning a child process in a new PTY.
#[derive(Debug)]
pub struct SpawnSpec {
    pub program: String,
    pub args: Vec<String>,
    pub env: Vec<(String, String)>,
    /// Working directory for the child.
    pub cwd: Option<String>,
    pub rows: u16,
    pub cols: u16,
}

/// One pane. `handle` carries whatever the caller needs to drive the child
/// process and its terminal; the logic never looks inside it.
pub struct Pane<H> {
    pub name: String,
    pub handle: H,
    /// View scroll offset into the scrollback (0 = bottom / live view).
    pub scroll: usize,
    pub alive: bool,
    /// Set when the initial spawn failed.
    pub spawn_error: Option<String>,
}

impl<H> Pane<H> {
    /// A pane whose child process started.
    pub fn started(name: String, handle: H) -> (p: Pane<H>)
        ensures
            p == (Pane { name, handle, scroll: 0, alive: true, spawn_error: None }),
    {
        Pane { name, handle, scroll: 0, alive: true, spawn_error: None }
    }

    /// A pane whose child process could not be started; `error` says why.
    pub fn failed(name: String, handle: H, error: String) -> (p: Pane<H>)
        ensures
            p == (Pane { name, handle, scroll: 0, alive: false, spawn_error: Some(error) }),
    {
        Pane { name, handle, scroll: 0, alive: false, spawn_error: Some(error) }
    }

    /// Refreshes the `alive` flag: a live pane whose child has `exited` is
    /// marked dead; a dead pane stays dead.
    pub fn poll_alive(&mut self, exited: bool)
        ensures
            *final(self) == (Pane { alive: old(self).alive && !exited, ..*old(self) }),
    {
        if self.alive && exited {
            self.alive = false;
        }
    }
}

/// Copies of a list of strings.
pub fn clone_strings(v: &Vec<String>) -> (r: Vec<String>)
    ensures
        r@ == v@,
{
    let mut r: Vec<String> = Vec::new();
    let mut i: usize = 0;
    while i < v.len()
        invariant
            i <= v.len(),
            r@ == v@.take(i as int),
        decreases v.len() - i,
    {
        r.push(v[i].clone());
        i = i + 1;
        assert(r@ =~= v@.take(i as int));
    }
    assert(v@.take(v.len() as int) =~= v@);
    r
}

/// Copies of a list of string pairs.
pub fn clone_pairs(v: &Vec<(String, String)>) -> (r: Vec<(String, String)>)
    ensures
        r@ == v@,
{
    let mut r: Vec<(String, String)> = Vec::new();
    let mut i: usize = 0;
    while i < v.len()
        invariant
            i <= v.len(),
            r@ == v@.take(i as int),
        decreases v.len() - i,
    {
        let (a, b) = &v[i];
        r.push((a.clone(), b.clone()));
        i = i + 1;
        assert(r@ =~= v@.take(i as int));
    }
    assert(v@.take(v.len() as int) =~= v@);
    r
}

} // verus!
