use termassist::dbglog::{fmt_bytes, log_bytes};
use termassist::ipc::{
    discover_socket, instance_name, is_socket_file, open_agent_response, read_pane_refusal,
    response_result, socket_file_name, Response, SocketEntry,
};
use termassist::skill::{project_skill_path, scope_from_answer, Scope, SKILL_MD};
use termassist::app::Mode;
use termassist::ui::{pane_title, shows_cursor};
use termassist::{effective_term_size, nested_target, shell_title, split_command};

#[test]
fn fmt_bytes_escapes_control_and_keeps_printable() {
    assert_eq!(fmt_bytes(b"abc"), "abc");
    assert_eq!(fmt_bytes(b"\x1b[<35;1;2M"), "\\x1b[<35;1;2M");
    assert_eq!(fmt_bytes("你".as_bytes()), "\\xe4\\xbd\\xa0");
    assert_eq!(fmt_bytes(b""), "");
}

#[test]
fn log_bytes_only_when_enabled() {
    assert_eq!(log_bytes(true, "pty0", b"a\x7f"), Some("pty0 a\\x7f".to_string()));
    assert_eq!(log_bytes(false, "pty0", b"a"), None);
}

#[test]
fn nested_target_requires_non_empty_socket() {
    assert_eq!(nested_target(None), None);
    assert_eq!(nested_target(Some(String::new())), None);
    assert_eq!(
        nested_target(Some("/tmp/termassist-1.sock".to_string())),
        Some("/tmp/termassist-1.sock".to_string())
    );
}

#[test]
fn split_command_works() {
    assert_eq!(split_command("kimi"), ("kimi".to_string(), vec![]));
    assert_eq!(
        split_command("kimi --verbose  --x"),
        ("kimi".to_string(), vec!["--verbose".to_string(), "--x".to_string()])
    );
    assert_eq!(split_command("   "), (String::new(), vec![]));
    assert_eq!(split_command("\tcodex\u{3000}-q\n"), ("codex".to_string(), vec!["-q".to_string()]));
}

#[test]
fn embedded_skill_has_frontmatter() {
    assert!(SKILL_MD.starts_with("---"));
    assert!(SKILL_MD.contains("name: termassist"));
    assert!(SKILL_MD.contains("description:"));
    assert!(SKILL_MD.contains("termassist read-pane"));
}

#[test]
fn install_answers() {
    assert_eq!(scope_from_answer("u\n"), Some(Scope::User));
    assert_eq!(scope_from_answer("  USER "), Some(Scope::User));
    assert_eq!(scope_from_answer("p"), Some(Scope::Project));
    assert_eq!(scope_from_answer("Project\n"), Some(Scope::Project));
    assert_eq!(scope_from_answer(""), None);
    assert_eq!(scope_from_answer("s"), None);
    assert_eq!(scope_from_answer("yes"), None);
}

#[test]
fn read_pane_errors() {
    let r = read_pane_refusal(5, &[true, true]).unwrap();
    assert!(!r.ok);
    assert_eq!(r.error.as_deref(), Some("no pane 5"));
    let r = read_pane_refusal(1, &[true, false]).unwrap();
    assert_eq!(r.error.as_deref(), Some("pane closed"));
    assert_eq!(r.text, "");
    assert!(read_pane_refusal(0, &[true, false]).is_none());
}

#[test]
fn responses_and_results() {
    let r = open_agent_response(Some("agent pane opened".to_string()));
    assert!(r.ok);
    assert_eq!(response_result(r), Ok("agent pane opened".to_string()));
    let r = open_agent_response(None);
    assert_eq!(response_result(r), Err("tui did not respond".to_string()));
    let r = Response { ok: false, text: String::new(), error: None };
    assert_eq!(response_result(r), Err("unknown error".to_string()));
    let r = Response::failure("boom".to_string());
    assert_eq!(response_result(r), Err("boom".to_string()));
}

#[test]
fn socket_names_and_discovery() {
    assert_eq!(instance_name(42), "termassist-42");
    assert_eq!(socket_file_name(1234), "termassist-1234.sock");
    assert!(is_socket_file("termassist-1.sock"));
    assert!(!is_socket_file("termassist-1.sockx"));
    assert!(!is_socket_file("other-1.sock"));
    let e = |name: &str, t: Option<i128>| SocketEntry {
        name: name.to_string(),
        path: format!("/tmp/{name}"),
        mtime: t,
    };
    let entries = vec![
        e("termassist-1.sock", Some(5)),
        e("unrelated.sock", Some(99)),
        e("termassist-2.sock", Some(9)),
        e("termassist-3.sock", Some(9)),
        e("termassist-4.sock", None),
    ];
    assert_eq!(discover_socket(&entries), Some("/tmp/termassist-2.sock".to_string()));
    assert_eq!(discover_socket(&vec![e("x", Some(1))]), None);
}

#[test]
fn titles_and_sizes() {
    assert_eq!(shell_title(Some("/home/u")), "shell: /home/u");
    assert_eq!(shell_title(None), "shell: ?");
    assert_eq!(pane_title("shell: ~", false, true, Mode::Normal, 0), " shell: ~ ");
    assert_eq!(pane_title("a", true, true, Mode::Scroll, 12), " a (zoom) (scroll: 12) ");
    assert_eq!(pane_title("a", false, false, Mode::Scroll, 3), " a (scrolled: 3) ");
    assert!(shows_cursor(true, Mode::Normal, 0));
    assert!(!shows_cursor(true, Mode::Normal, 1));
    assert_eq!(effective_term_size(Some((100, 40))), (100, 40));
    assert_eq!(effective_term_size(Some((3, 40))), (80, 24));
    assert_eq!(effective_term_size(None), (80, 24));
}

#[test]
fn fmt_bytes_concatenates_and_is_printable() {
    let a: &[u8] = b"ab\x1b";
    let c: &[u8] = b"\x7f~";
    let whole: Vec<u8> = [a, c].concat();
    assert_eq!(fmt_bytes(&whole), format!("{}{}", fmt_bytes(a), fmt_bytes(c)));
    assert_eq!(fmt_bytes(&whole), "ab\\x1b\\x7f~");
    assert_eq!(fmt_bytes(&whole).len(), whole.len() + 3 * 2);
    assert!(fmt_bytes(&[0u8, 0xff, 0x20]).chars().all(|ch| (' '..='~').contains(&ch)));
}

#[test]
fn skill_path_layout() {
    assert_eq!(project_skill_path(), vec![".agents", "skills", "termassist", "SKILL.md"]);
}
