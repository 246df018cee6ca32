//! The agent-facing skill: the bundled SKILL.md and the answer to the
//! pre-TUI install question.

use vstd::prelude::*;
use crate::text::{chars_of, chars_eq_str, lower_chars, lower_seq, trim, trim_chars};

verus! {

/// The bundled SKILL.md that teaches the agent `termassist read-pane`.
pub const SKILL_MD: &'static str = "---\nname: termassist\ndescription: Use when running inside a termassist split-terminal session and you need to see the user's shell pane. Read its current screen plus scrollback with `termassist read-pane` \u{2014} e.g. to inspect command output, error messages, or what the user is looking at.\n---\n\n# termassist pane reader\n\nYou are running in one pane of a `termassist` split terminal. The user's\ninteractive shell runs in the other pane. To see what the user sees, run:\n\n```sh\ntermassist read-pane             # full scrollback + current screen of the user pane\ntermassist read-pane --lines 50  # last 50 lines only\n```\n\nNotes:\n\n- Output is plain text on stdout; safe to run as often as needed.\n- Use it when the user says \"look at my terminal\", when you need the output\n  of a command the user ran, or to check error messages on their side before\n  suggesting fixes.\n- The connection is discovered automatically via the `TERM_ASSIST_SOCK`\n  environment variable (set in both panes); `--socket <path>` overrides it.\n- `--pane right` reads the agent pane instead of the user pane (rarely useful).\n";

/// Install scope for `install-skill`.
#[derive(Debug, Clone, Copy, PartialEq, Eq, Structural)]
pub enum Scope {
    /// `~/.agents/skills/termassist/SKILL.md`
    User,
    /// `./.agents/skills/termassist/SKILL.md`
    Project,
}

/// The scope chosen by an answer to "Install now? [u]ser / [p]roject /
/// [s]kip": `u`/`user` or `p`/`project` in any ASCII case, surrounding
/// whitespace ignored; anything else skips.
pub open spec fn answer_scope(answer: Seq<char>) -> Option<Scope> {
    let a = lower_seq(trim(answer));
    if a == "u"@ || a == "user"@ {
        Some(Scope::User)
    } else if a == "p"@ || a == "project"@ {
        Some(Scope::Project)
    } else {
        None
    }
}

/// The scope chosen by an answer to the install question (`None`: skip).
pub fn scope_from_answer(answer: &str) -> (r: Option<Scope>)
    ensures
        r == answer_scope(answer@),
{
    let cs = chars_of(answer);
    let t = trim_chars(cs.as_slice());
    let a = lower_chars(t.as_slice());
    let a = a.as_slice();
    if chars_eq_str(a, "u") || chars_eq_str(a, "user") {
        Some(Scope::User)
    } else if chars_eq_str(a, "p") || chars_eq_str(a, "project") {
        Some(Scope::Project)
    } else {
        None
    }
}

/// Where the skill is installed, relative to the project directory (or
/// to the home directory for a user install), as path components:
/// `.agents/skills/termassist/SKILL.md`.
pub fn project_skill_path() -> (r: Vec<String>)
    ensures
        r@.map_values(|c: String| c@) == seq![".agents"@, "skills"@, "termassist"@, "SKILL.md"@],
{
    let r = vec![
        String::from_str(".agents"),
        String::from_str("skills"),
        String::from_str("termassist"),
        String::from_str("SKILL.md"),
    ];
    assert(r@.map_values(|c: String| c@) =~= seq![".agents"@, "skills"@, "termassist"@, "SKILL.md"@]);
    r
}

} // verus!
