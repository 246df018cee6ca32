//! termassist: the logic of a split-terminal assistant (a shell pane beside
//! a CLI agent pane), with its contracts and their proofs.

pub mod app;
pub mod config;
pub mod dbglog;
pub mod input;
pub mod ipc;
pub mod pane;
pub mod skill;
pub mod term;
pub mod text;

pub mod ui;

use vstd::prelude::*;
use crate::text::{is_ws, char_is_ws, chars_of, string_of, push_str};

verus! {

/// `s` split at every whitespace character (empty parts included).
pub open spec fn ws_split(s: Seq<char>) -> Seq<Seq<char>>
    decreases s.len(),
{
    if s.len() == 0 {
        seq![Seq::<char>::empty()]
    } else {
        let p = ws_split(s.drop_last());
        if is_ws(s.last()) {
            p.push(Seq::<char>::empty())
        } else {
            p.update(p.len() - 1, p.last().push(s.last()))
        }
    }
}

proof fn lemma_ws_split_nonempty(s: Seq<char>)
    ensures
        ws_split(s).len() >= 1,
    decreases s.len(),
{
    if s.len() > 0 {
        lemma_ws_split_nonempty(s.drop_last());
    }
}

/// The non-empty parts, in order.
pub open spec fn nonempty_parts(ps: Seq<Seq<char>>) -> Seq<Seq<char>>
    decreases ps.len(),
{
    if ps.len() == 0 {
        Seq::empty()
    } else if ps.last().len() > 0 {
        nonempty_parts(ps.drop_last()).push(ps.last())
    } else {
        nonempty_parts(ps.drop_last())
    }
}

/// `str::split_whitespace`: the maximal runs of non-whitespace characters.
pub open spec fn words(s: Seq<char>) -> Seq<Seq<char>> {
    nonempty_parts(ws_split(s))
}

/// The words of a string (`str::split_whitespace`).
pub fn split_words(s: &str) -> (r: Vec<Vec<char>>)
    ensures
        r@.map_values(|w: Vec<char>| w@) == words(s@),
{
    let cs = chars_of(s);
    let mut out: Vec<Vec<char>> = Vec::new();
    let mut cur: Vec<char> = Vec::new();
    let mut i: usize = 0;
    proof {
        assert(cs@.take(0) =~= Seq::<char>::empty());
        assert(out@.map_values(|w: Vec<char>| w@) =~= Seq::<Seq<char>>::empty());
    }
    while i < cs.len()
        invariant
            i <= cs.len(),
            cs@ == s@,
            ws_split(cs@.take(i as int)).len() >= 1,
            cur@ == ws_split(cs@.take(i as int)).last(),
            out@.map_values(|w: Vec<char>| w@) == nonempty_parts(
                ws_split(cs@.take(i as int)).drop_last(),
            ),
        decreases cs.len() - i,
    {
        let c = cs[i];
        let ghost before = ws_split(cs@.take(i as int));
        proof {
            assert(cs@.take(i + 1).drop_last() =~= cs@.take(i as int));
            assert(cs@.take(i + 1).last() == c);
            lemma_ws_split_nonempty(cs@.take(i + 1));
        }
        if char_is_ws(c) {
            let ghost old_out = out@;
            if cur.len() > 0 {
                out.push(cur);
                proof {
                    assert(out@.map_values(|w: Vec<char>| w@) =~= old_out.map_values(|w: Vec<char>| w@).push(
                        before.last(),
                    ));
                }
            }
            proof {
                let after = before.push(Seq::<char>::empty());
                assert(after.drop_last() =~= before);
                assert(before =~= before.drop_last().push(before.last()));
            }
            cur = Vec::new();
        } else {
            cur.push(c);
            proof {
                let after = before.update(before.len() - 1, before.last().push(c));
                assert(after.drop_last() =~= before.drop_last());
            }
        }
        i = i + 1;
    }
    assert(cs@.take(cs.len() as int) =~= cs@);
    proof {
        lemma_ws_split_nonempty(cs@);
        let p = ws_split(cs@);
        assert(p =~= p.drop_last().push(p.last()));
    }
    if cur.len() > 0 {
        let ghost old_out = out@;
        out.push(cur);
        proof {
            assert(out@.map_values(|w: Vec<char>| w@) =~= old_out.map_values(|w: Vec<char>| w@).push(
                ws_split(cs@).last(),
            ));
        }
    }
    out
}

/// Splits a command string like `"kimi --verbose"` into program and
/// arguments at whitespace (no quoting); an empty program when there is
/// no word.
pub fn split_command(cmd: &str) -> (r: (String, Vec<String>))
    ensures
        ({
            let w = words(cmd@);
            &&& r.0@ == if w.len() > 0 {
                w[0]
            } else {
                Seq::<char>::empty()
            }
            &&& r.1@.map_values(|a: String| a@) == if w.len() > 0 {
                w.skip(1)
            } else {
                Seq::<Seq<char>>::empty()
            }
        }),
{
    let ws = split_words(cmd);
    let ghost wv = ws@.map_values(|w: Vec<char>| w@);
    if ws.len() == 0 {
        let args: Vec<String> = Vec::new();
        assert(args@.map_values(|a: String| a@) =~= Seq::<Seq<char>>::empty());
        return (String::new(), args);
    }
    let program = string_of(&ws[0]);
    let mut args: Vec<String> = Vec::new();
    let mut k: usize = 1;
    while k < ws.len()
        invariant
            1 <= k <= ws.len(),
            wv == ws@.map_values(|w: Vec<char>| w@),
            args@.map_values(|a: String| a@) == wv.subrange(1, k as int),
        decreases ws.len() - k,
    {
        let a = string_of(&ws[k]);
        let ghost old_args = args@;
        args.push(a);
        proof {
            assert(args@.map_values(|a: String| a@) =~= old_args.map_values(|a: String| a@).push(
                wv[k as int],
            ));
            assert(wv.subrange(1, k + 1) =~= wv.subrange(1, k as int).push(wv[k as int]));
        }
        k = k + 1;
    }
    assert(wv.subrange(1, ws.len() as int) =~= wv.skip(1));
    (program, args)
}

/// Whether a no-subcommand invocation delegates to a running instance:
/// yes, to that socket, iff `TERM_ASSIST_SOCK` is set and non-empty.
pub fn nested_target(var: Option<String>) -> (r: Option<String>)
    ensures
        match var {
            Some(s) => if s@.len() > 0 {
                r == Some(s)
            } else {
                r is None
            },
            None => r is None,
        },
{
    match var {
        Some(s) => if s.as_str().is_empty() {
            None
        } else {
            Some(s)
        },
        None => None,
    }
}

/// The terminal size to lay out for: the detected (width, height) when it
/// is at least 4x4, else 80x24.
pub fn effective_term_size(detected: Option<(u16, u16)>) -> (r: (u16, u16))
    ensures
        match detected {
            Some((w, h)) => if w >= 4 && h >= 4 {
                r == (w, h)
            } else {
                r == (80u16, 24u16)
            },
            None => r == (80u16, 24u16),
        },
{
    match detected {
        Some((w, h)) => if w >= 4 && h >= 4 {
            (w, h)
        } else {
            (80, 24)
        },
        None => (80, 24),
    }
}

/// The title of the shell pane: `shell: <cwd>` (`?` for an unknown cwd).
pub fn shell_title(cwd: Option<&str>) -> (r: String)
    ensures
        r@ == "shell: "@ + match cwd {
            Some(d) => d@,
            None => "?"@,
        },
{
    let mut t = String::new();
    push_str(&mut t, "shell: ");
    match cwd {
        Some(d) => push_str(&mut t, d),
        None => push_str(&mut t, "?"),
    }
    t
}

} // verus!
