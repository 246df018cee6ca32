use termassist::term::{finish_capture, merge_windows, window_offsets, Term};

#[test]
fn feed_and_capture() {
    let mut t = Term::new(24, 80, 100);
    t.feed(b"hello world\r\nsecond line\r\n");
    let text = t.capture(None);
    assert!(text.contains("hello world"));
    assert!(text.contains("second line"));
}

#[test]
fn capture_respects_line_limit() {
    let mut t = Term::new(24, 80, 100);
    t.feed(b"one\r\ntwo\r\nthree\r\n");
    let text = t.capture(Some(2));
    assert_eq!(text, "two\nthree");
}

#[test]
fn scrollback_is_captured() {
    let mut t = Term::new(3, 80, 100);
    for i in 0..10 {
        t.feed(format!("line {i}\r\n").as_bytes());
    }
    let text = t.capture(None);
    assert!(text.contains("line 0"), "scrollback missing: {text:?}");
    assert!(text.contains("line 9"));
    assert_eq!(text, (0..10).map(|i| format!("line {i}")).collect::<Vec<_>>().join("\n"));
}

#[test]
fn scrollback_limit_is_enforced_by_vt100() {
    let mut t = Term::new(3, 80, 5);
    for i in 0..20 {
        t.feed(format!("line {i}\r\n").as_bytes());
    }
    let text = t.capture(None);
    assert!(!text.contains("line 0"));
    assert!(text.contains("line 19"));
}

#[test]
fn resize_keeps_working() {
    let mut t = Term::new(24, 80, 100);
    t.feed(b"before resize\r\n");
    t.resize(10, 40);
    t.feed(b"after");
    let text = t.capture(None);
    assert!(text.contains("before resize"));
    assert!(text.contains("after"));
}

#[test]
fn set_scrollback_is_clamped() {
    let mut t = Term::new(5, 80, 10);
    for i in 0..12 {
        t.feed(format!("line {i}\r\n").as_bytes());
    }
    t.set_view(usize::MAX);
    let text = t.parser().0.screen().contents();
    assert!(text.contains("line 0"), "not clamped to oldest: {text:?}");
    t.set_view(0);
    assert!(t.parser().0.screen().contents().contains("line 11"));
}

#[test]
fn zero_sizes_become_one() {
    let mut t = Term::new(0, 0, 7);
    assert_eq!(t.scrollback_limit(), 7);
    t.feed(b"x");
    t.resize(0, 0);
    assert_eq!(t.capture(None), "x");
}

#[test]
fn window_walk_and_merge() {
    assert_eq!(window_offsets(8, 3), vec![8, 5, 2, 0]);
    assert_eq!(window_offsets(0, 3), vec![0]);
    assert_eq!(window_offsets(3, 3), vec![3, 0]);
    // Nine lines a..i on a 3-row screen, visited at offsets 6, 3, 1, 0.
    let chunks = vec![
        "a\nb\nc".to_string(),
        "d\ne\nf".to_string(),
        "f\ng\nh".to_string(),
        "g\nh\ni".to_string(),
    ];
    let offs = vec![6, 3, 1, 0];
    let merged: String = merge_windows(&chunks, &offs, 3).into_iter().collect();
    assert_eq!(merged, "a\nb\nc\nd\ne\nf\ng\nh\ni");
    // Leading empty lines vanish while the text is still empty.
    let merged: String = merge_windows(&vec!["\n\nx".to_string()], &vec![0], 3).into_iter().collect();
    assert_eq!(merged, "x");
}

#[test]
fn finish_capture_trims() {
    let t: Vec<char> = "a  \n b\r\n\n  \n".chars().collect();
    assert_eq!(finish_capture(&t, None), "a\n b");
    assert_eq!(finish_capture(&t, Some(1)), " b");
    assert_eq!(finish_capture(&t, Some(0)), "");
    let e: Vec<char> = "".chars().collect();
    assert_eq!(finish_capture(&e, Some(3)), "");
}

#[test]
fn history_reassembled_from_windows() {
    // Seven rows on a 3-row screen: scrollback of 4, windows at 4, 1, 0.
    let hist: Vec<String> = (0..7).map(|i| format!("r{i}")).collect();
    let offs = window_offsets(4, 3);
    assert_eq!(offs, vec![4, 1, 0]);
    let chunks: Vec<String> = offs
        .iter()
        .map(|o| hist[4 - o..4 - o + 3].join("\n"))
        .collect();
    let merged: String = merge_windows(&chunks, &offs, 3).into_iter().collect();
    assert_eq!(merged, hist.join("\n"));
}

#[test]
fn capture_returns_to_live_view() {
    let mut t = Term::new(3, 80, 100);
    for i in 0..10 {
        t.feed(format!("line {i}\r\n").as_bytes());
    }
    t.set_view(4);
    assert_eq!(t.parser().0.screen().scrollback(), 4);
    let all = t.capture(None);
    let expected: Vec<String> = (0..10).map(|i| format!("line {i}")).collect();
    assert_eq!(all, expected.join("\n"));
    assert_eq!(t.parser().0.screen().scrollback(), 0);
    assert_eq!(t.capture(Some(2)), "line 8\nline 9");
    assert_eq!(t.view_text(), t.parser().0.screen().contents());
}
