//! Configuration values, their defaults, key bindings and the first-run
//! wizard's text.

use vstd::prelude::*;
use crate::text::{push_char, ascii_lower, chars_eq_str, chars_of, is_ws, lower, lower_chars, lower_seq, push_str, string_of, trim, trim_chars};

verus! {

/// Initial split direction.
#[derive(Debug, Clone, Copy, PartialEq, Eq, Structural)]
pub enum Layout {
    /// Left/right split.
    Horizontal,
    /// Top/bottom split.
    Vertical,
}

/// The other split direction.
pub open spec fn flip(l: Layout) -> Layout {
    match l {
        Layout::Horizontal => Layout::Vertical,
        Layout::Vertical => Layout::Horizontal,
    }
}

impl Layout {
    /// The other split direction.
    pub fn flipped(self) -> (r: Layout)
        ensures
            r == flip(self),
    {
        match self {
            Layout::Horizontal => Layout::Vertical,
            Layout::Vertical => Layout::Horizontal,
        }
    }
}

/// Flipping the split direction twice gives back the first direction,
/// and flipping always changes it.
pub proof fn law_flip_involution(l: Layout)
    ensures
        flip(flip(l)) == l,
        flip(l) != l,
{
}

/// Key modifiers held during a key event (the flags crossterm reports).
#[derive(Debug, Clone, Copy, PartialEq, Eq, Structural)]
pub struct KeyMods {
    pub shift: bool,
    pub control: bool,
    pub alt: bool,
    pub super_key: bool,
    pub hyper: bool,
    pub meta: bool,
}

impl KeyMods {
    /// No modifier held.
    pub open spec fn none_spec() -> KeyMods {
        KeyMods { shift: false, control: false, alt: false, super_key: false, hyper: false, meta: false }
    }

    /// No modifier held.
    pub fn none() -> (m: KeyMods)
        ensures
            m == KeyMods::none_spec(),
    {
        KeyMods { shift: false, control: false, alt: false, super_key: false, hyper: false, meta: false }
    }

    /// Only Control held.
    pub fn control() -> (m: KeyMods)
        ensures
            m == (KeyMods { control: true, ..KeyMods::none_spec() }),
    {
        KeyMods { shift: false, control: true, alt: false, super_key: false, hyper: false, meta: false }
    }

    /// Only Alt held.
    pub fn alt() -> (m: KeyMods)
        ensures
            m == (KeyMods { alt: true, ..KeyMods::none_spec() }),
    {
        KeyMods { shift: false, control: false, alt: true, super_key: false, hyper: false, meta: false }
    }

    /// Only Shift held.
    pub fn shift() -> (m: KeyMods)
        ensures
            m == (KeyMods { shift: true, ..KeyMods::none_spec() }),
    {
        KeyMods { shift: true, control: false, alt: false, super_key: false, hyper: false, meta: false }
    }

    /// Whether no modifier is held.
    pub open spec fn is_empty_spec(self) -> bool {
        self == KeyMods::none_spec()
    }

    /// Whether no modifier is held.
    pub fn is_empty(&self) -> (r: bool)
        ensures
            r == self.is_empty_spec(),
    {
        !self.shift && !self.control && !self.alt && !self.super_key && !self.hyper && !self.meta
    }

    /// The modifiers held in either set.
    pub open spec fn union_spec(self, o: KeyMods) -> KeyMods {
        KeyMods {
            shift: self.shift || o.shift,
            control: self.control || o.control,
            alt: self.alt || o.alt,
            super_key: self.super_key || o.super_key,
            hyper: self.hyper || o.hyper,
            meta: self.meta || o.meta,
        }
    }

    /// The modifiers held in either set.
    pub fn union(self, o: KeyMods) -> (r: KeyMods)
        ensures
            r == self.union_spec(o),
    {
        KeyMods {
            shift: self.shift || o.shift,
            control: self.control || o.control,
            alt: self.alt || o.alt,
            super_key: self.super_key || o.super_key,
            hyper: self.hyper || o.hyper,
            meta: self.meta || o.meta,
        }
    }
}

/// A key. Keys that no binding names and no encoding handles (Caps Lock,
/// media keys, ...) are all `Other`.
#[derive(Debug, Clone, Copy, PartialEq, Eq, Structural)]
pub enum KeyCode {
    Backspace,
    Enter,
    Left,
    Right,
    Up,
    Down,
    Home,
    End,
    PageUp,
    PageDown,
    Tab,
    BackTab,
    Delete,
    Insert,
    F(u8),
    Char(char),
    Esc,
    Other,
}

/// Whether a key event is a press, an auto-repeat or a release.
#[derive(Debug, Clone, Copy, PartialEq, Eq, Structural)]
pub enum KeyEventKind {
    Press,
    Repeat,
    Release,
}

/// A key event.
#[derive(Debug, Clone, Copy, PartialEq, Eq, Structural)]
pub struct KeyEvent {
    pub code: KeyCode,
    pub modifiers: KeyMods,
    pub kind: KeyEventKind,
}

impl KeyEvent {
    /// A key press.
    pub fn new(code: KeyCode, modifiers: KeyMods) -> (e: KeyEvent)
        ensures
            e == (KeyEvent { code, modifiers, kind: KeyEventKind::Press }),
    {
        KeyEvent { code, modifiers, kind: KeyEventKind::Press }
    }
}

/// A parsed key binding, e.g. `Ctrl+Right` or `Alt+x`.
#[derive(Debug, Clone, Copy, PartialEq, Eq, Structural)]
pub struct KeyBind {
    pub mods: KeyMods,
    pub code: KeyCode,
}

/// What one `+`-separated part of a binding names.
pub enum PartKind {
    Ctrl,
    Alt,
    Shift,
    Code(KeyCode),
    Bad,
}

/// The key that a lowercase key name denotes.
pub open spec fn named_key(l: Seq<char>) -> Option<KeyCode> {
    if l == "enter"@ || l == "return"@ {
        Some(KeyCode::Enter)
    } else if l == "esc"@ || l == "escape"@ {
        Some(KeyCode::Esc)
    } else if l == "tab"@ {
        Some(KeyCode::Tab)
    } else if l == "backtab"@ {
        Some(KeyCode::BackTab)
    } else if l == "backspace"@ {
        Some(KeyCode::Backspace)
    } else if l == "space"@ {
        Some(KeyCode::Char(' '))
    } else if l == "up"@ {
        Some(KeyCode::Up)
    } else if l == "down"@ {
        Some(KeyCode::Down)
    } else if l == "left"@ {
        Some(KeyCode::Left)
    } else if l == "right"@ {
        Some(KeyCode::Right)
    } else if l == "home"@ {
        Some(KeyCode::Home)
    } else if l == "end"@ {
        Some(KeyCode::End)
    } else if l == "pageup"@ {
        Some(KeyCode::PageUp)
    } else if l == "pagedown"@ {
        Some(KeyCode::PageDown)
    } else if l == "delete"@ || l == "del"@ {
        Some(KeyCode::Delete)
    } else if l == "insert"@ || l == "ins"@ {
        Some(KeyCode::Insert)
    } else {
        None
    }
}

/// Whether `c` is an ASCII decimal digit.
pub open spec fn is_digit(c: char) -> bool {
    '0' <= c <= '9'
}

/// The number that a string of decimal digits spells.
pub open spec fn digits_value(s: Seq<char>) -> nat
    decreases s.len(),
{
    if s.len() == 0 {
        0
    } else {
        10 * digits_value(s.drop_last()) + ((s.last() as u32) - 48) as nat
    }
}

/// The function key `F1`..`F12` that a lowercase name such as `f5` or `f012`
/// denotes: an `f` followed by decimal digits whose value is 1 to 12.
pub open spec fn fkey_num(l: Seq<char>) -> Option<u8> {
    let rest = l.skip(1);
    if l.len() > 1 && l[0] == 'f' && (forall|i: int| 0 <= i < rest.len() ==> is_digit(#[trigger] rest[i]))
        && 1 <= digits_value(rest) <= 12 {
        Some(digits_value(rest) as u8)
    } else {
        None
    }
}

/// What a trimmed, non-empty part of a binding string names.
pub open spec fn classify_part(p: Seq<char>) -> PartKind {
    let l = lower_seq(p);
    if l == "ctrl"@ || l == "control"@ {
        PartKind::Ctrl
    } else if l == "alt"@ || l == "meta"@ {
        PartKind::Alt
    } else if l == "shift"@ {
        PartKind::Shift
    } else if named_key(l) is Some {
        PartKind::Code(named_key(l).unwrap())
    } else if fkey_num(l) is Some {
        PartKind::Code(KeyCode::F(fkey_num(l).unwrap()))
    } else if p.len() == 1 {
        PartKind::Code(KeyCode::Char(lower(p[0])))
    } else {
        PartKind::Bad
    }
}

/// `s.split(sep)`: the parts between separators (one empty part for an
/// empty string).
pub open spec fn split_on(s: Seq<char>, sep: char) -> Seq<Seq<char>>
    decreases s.len(),
{
    if s.len() == 0 {
        seq![Seq::<char>::empty()]
    } else {
        let p = split_on(s.drop_last(), sep);
        if s.last() == sep {
            p.push(Seq::<char>::empty())
        } else {
            p.update(p.len() - 1, p.last().push(s.last()))
        }
    }
}

pub proof fn lemma_split_on_nonempty(s: Seq<char>, sep: char)
    ensures
        split_on(s, sep).len() >= 1,
    decreases s.len(),
{
    if s.len() > 0 {
        lemma_split_on_nonempty(s.drop_last(), sep);
    }
}

/// Modifiers and key gathered so far, or the first part that names nothing.
pub type PartsAcc = Result<(KeyMods, Option<KeyCode>), Seq<char>>;

/// Takes one more part into account: blank parts are skipped, modifiers
/// accumulate, and the last key named wins.
pub open spec fn parse_step(acc: PartsAcc, part: Seq<char>) -> PartsAcc {
    match acc {
        Err(bad) => Err(bad),
        Ok((m, c)) => {
            let p = trim(part);
            if p.len() == 0 {
                Ok((m, c))
            } else {
                match classify_part(p) {
                    PartKind::Ctrl => Ok((KeyMods { control: true, ..m }, c)),
                    PartKind::Alt => Ok((KeyMods { alt: true, ..m }, c)),
                    PartKind::Shift => Ok((KeyMods { shift: true, ..m }, c)),
                    PartKind::Code(k) => Ok((m, Some(k))),
                    PartKind::Bad => Err(p),
                }
            }
        }
    }
}

/// The parts folded from first to last.
pub open spec fn parse_parts(parts: Seq<Seq<char>>) -> PartsAcc
    decreases parts.len(),
{
    if parts.len() == 0 {
        Ok((KeyMods::none_spec(), None))
    } else {
        parse_step(parse_parts(parts.drop_last()), parts.last())
    }
}

/// The result of parsing a binding string: the key binding, or the error
/// message.
pub open spec fn parse_binding(s: Seq<char>) -> Result<KeyBind, Seq<char>> {
    match parse_parts(split_on(s, '+')) {
        Err(p) => Err("unknown key '"@ + p + "' in binding '"@ + s + "'"@),
        Ok((_, None)) => Err("binding '"@ + s + "' has no key"@),
        Ok((m, Some(c))) => Ok(KeyBind { mods: m, code: c }),
    }
}

/// Whether two keys are the same, letters compared without regard to ASCII
/// case.
pub open spec fn same_key(a: KeyCode, b: KeyCode) -> bool {
    match (a, b) {
        (KeyCode::Char(x), KeyCode::Char(y)) => lower(x) == lower(y),
        _ => a == b,
    }
}

/// Parses the decimal digits after the `f` of a function key name.
fn fkey_of(l: &[char]) -> (r: Option<u8>)
    ensures
        r == fkey_num(l@),
{
    if l.len() <= 1 || l[0] != 'f' {
        return None;
    }
    let ghost rest = l@.skip(1);
    let mut v: u8 = 0;
    let mut k: usize = 1;
    while k < l.len()
        invariant
            1 <= k <= l.len(),
            rest == l@.skip(1),
            forall|i: int| 0 <= i < k - 1 ==> is_digit(#[trigger] rest[i]),
            v as nat == if digits_value(rest.take(k - 1)) < 13 {
                digits_value(rest.take(k - 1))
            } else {
                13
            },
        decreases l.len() - k,
    {
        let c = l[k];
        if !('0' <= c && c <= '9') {
            assert(!is_digit(rest[k - 1]));
            return None;
        }
        let d = (c as u32 - 48) as u8;
        proof {
            assert(rest.take(k as int).drop_last() =~= rest.take(k - 1));
            assert(rest.take(k as int).last() == c);
        }
        if v >= 13 {
            v = 13;
        } else {
            let w = v * 10 + d;
            v = if w >= 13 { 13 } else { w };
        }
        k = k + 1;
    }
    assert(rest.take(l.len() - 1) =~= rest);
    if 1 <= v && v <= 12 {
        Some(v)
    } else {
        None
    }
}

/// The key that a lowercase key name denotes.
fn named_key_of(l: &[char]) -> (r: Option<KeyCode>)
    ensures
        r == named_key(l@),
{
    if chars_eq_str(l, "enter") || chars_eq_str(l, "return") {
        Some(KeyCode::Enter)
    } else if chars_eq_str(l, "esc") || chars_eq_str(l, "escape") {
        Some(KeyCode::Esc)
    } else if chars_eq_str(l, "tab") {
        Some(KeyCode::Tab)
    } else if chars_eq_str(l, "backtab") {
        Some(KeyCode::BackTab)
    } else if chars_eq_str(l, "backspace") {
        Some(KeyCode::Backspace)
    } else if chars_eq_str(l, "space") {
        Some(KeyCode::Char(' '))
    } else if chars_eq_str(l, "up") {
        Some(KeyCode::Up)
    } else if chars_eq_str(l, "down") {
        Some(KeyCode::Down)
    } else if chars_eq_str(l, "left") {
        Some(KeyCode::Left)
    } else if chars_eq_str(l, "right") {
        Some(KeyCode::Right)
    } else if chars_eq_str(l, "home") {
        Some(KeyCode::Home)
    } else if chars_eq_str(l, "end") {
        Some(KeyCode::End)
    } else if chars_eq_str(l, "pageup") {
        Some(KeyCode::PageUp)
    } else if chars_eq_str(l, "pagedown") {
        Some(KeyCode::PageDown)
    } else if chars_eq_str(l, "delete") || chars_eq_str(l, "del") {
        Some(KeyCode::Delete)
    } else if chars_eq_str(l, "insert") || chars_eq_str(l, "ins") {
        Some(KeyCode::Insert)
    } else {
        None
    }
}

/// What a trimmed, non-empty part of a binding string names.
fn classify(p: &[char]) -> (r: PartKind)
    ensures
        r == classify_part(p@),
{
    let l = lower_chars(p);
    let l = l.as_slice();
    if chars_eq_str(l, "ctrl") || chars_eq_str(l, "control") {
        PartKind::Ctrl
    } else if chars_eq_str(l, "alt") || chars_eq_str(l, "meta") {
        PartKind::Alt
    } else if chars_eq_str(l, "shift") {
        PartKind::Shift
    } else if let Some(k) = named_key_of(l) {
        PartKind::Code(k)
    } else if let Some(n) = fkey_of(l) {
        PartKind::Code(KeyCode::F(n))
    } else if p.len() == 1 {
        PartKind::Code(KeyCode::Char(ascii_lower(p[0])))
    } else {
        PartKind::Bad
    }
}

/// One step of the fold over the parts of a binding string.
fn step_part(mods: KeyMods, code: Option<KeyCode>, part: &[char]) -> (r: Result<
    (KeyMods, Option<KeyCode>),
    Vec<char>,
>)
    ensures
        match r {
            Ok(v) => parse_step(Ok((mods, code)), part@) == Ok::<_, Seq<char>>(v),
            Err(p) => parse_step(Ok((mods, code)), part@) == Err::<(KeyMods, Option<KeyCode>), _>(
                p@,
            ),
        },
{
    let p = trim_chars(part);
    if p.len() == 0 {
        return Ok((mods, code));
    }
    match classify(p.as_slice()) {
        PartKind::Ctrl => Ok((KeyMods { control: true, ..mods }, code)),
        PartKind::Alt => Ok((KeyMods { alt: true, ..mods }, code)),
        PartKind::Shift => Ok((KeyMods { shift: true, ..mods }, code)),
        PartKind::Code(k) => Ok((mods, Some(k))),
        PartKind::Bad => Err(p),
    }
}

impl KeyBind {
    /// A binding of `code` with exactly the modifiers `mods`.
    pub fn new(mods: KeyMods, code: KeyCode) -> (k: KeyBind)
        ensures
            k == (KeyBind { mods, code }),
    {
        KeyBind { mods, code }
    }

    /// Parses strings like `"Ctrl+g"`, `"Ctrl+Shift+Left"`, `"Alt+x"`, `"F5"`.
    /// Parts are separated by `+` and trimmed; blank parts are skipped;
    /// names are case-insensitive; a single character names itself
    /// (lowercased); the last key named wins.
    pub fn parse(s: &str) -> (r: Result<KeyBind, String>)
        ensures
            match r {
                Ok(k) => parse_binding(s@) == Ok::<_, Seq<char>>(k),
                Err(msg) => parse_binding(s@) == Err::<KeyBind, _>(msg@),
            },
    {
        let cs = chars_of(s);
        let cs = cs.as_slice();
        let mut mods = KeyMods::none();
        let mut code: Option<KeyCode> = None;
        let mut cur: Vec<char> = Vec::new();
        let mut i: usize = 0;
        proof {
            lemma_split_on_nonempty(cs@.take(0), '+');
            assert(cs@.take(0) =~= Seq::<char>::empty());
            assert(split_on(cs@.take(0), '+').drop_last() =~= Seq::<Seq<char>>::empty());
        }
        while i < cs.len()
            invariant
                i <= cs.len(),
                cs@ == s@,
                split_on(cs@.take(i as int), '+').len() >= 1,
                cur@ == split_on(cs@.take(i as int), '+').last(),
                parse_parts(split_on(cs@.take(i as int), '+').drop_last()) == Ok::<_, Seq<char>>(
                    (mods, code),
                ),
            decreases cs.len() - i,
        {
            let c = cs[i];
            let ghost before = split_on(cs@.take(i as int), '+');
            proof {
                assert(cs@.take(i + 1).drop_last() =~= cs@.take(i as int));
                assert(cs@.take(i + 1).last() == c);
            }
            if c == '+' {
                let r = step_part(mods, code, cur.as_slice());
                proof {
                    assert(before.push(Seq::<char>::empty()).drop_last() =~= before);
                }
                match r {
                    Ok((m2, c2)) => {
                        mods = m2;
                        code = c2;
                    },
                    Err(bad) => {
                        proof {
                            assert(cs@.take(i + 1) =~= cs@.take(i + 1));
                            lemma_split_prefix(cs@, i as int + 1, '+');
                            assert(cs@.take(i + 1 - 1) =~= cs@.take(i as int));
                            lemma_split_on_nonempty(cs@.take(i as int), '+');
                            assert(before.drop_last().push(before.last()) =~= before);
                            assert(parse_parts(before) == Err::<(KeyMods, Option<KeyCode>), Seq<char>>(bad@));
                            lemma_parse_parts_err_prefix(split_on(cs@, '+'), before.len() as int, bad@);
                        }
                        return Err(unknown_key_message(&bad, s));
                    },
                }
                cur = Vec::new();
            } else {
                cur.push(c);
                proof {
                    let after = before.update(before.len() - 1, before.last().push(c));
                    assert(after.drop_last() =~= before.drop_last());
                    assert(cur@ =~= after.last());
                }
            }
            i = i + 1;
        }
        assert(cs@.take(cs.len() as int) =~= cs@);
        let r = step_part(mods, code, cur.as_slice());
        proof {
            lemma_split_on_nonempty(cs@, '+');
            let sp = split_on(cs@, '+');
            assert(sp.drop_last().push(sp.last()) =~= sp);
            assert(sp == sp.drop_last().push(sp.last()));
        }
        match r {
            Ok((m2, c2)) => match c2 {
                Some(k) => Ok(KeyBind { mods: m2, code: k }),
                None => {
                    let mut msg = String::new();
                    push_str(&mut msg, "binding '");
                    push_str(&mut msg, s);
                    push_str(&mut msg, "' has no key");
                    Err(msg)
                },
            },
            Err(bad) => Err(unknown_key_message(&bad, s)),
        }
    }

    /// Whether a key event triggers this binding: the modifiers must be
    /// exactly the bound ones, and letters match in either case.
    pub fn matches(&self, ev: &KeyEvent) -> (r: bool)
        ensures
            r == (self.mods == ev.modifiers && same_key(self.code, ev.code)),
    {
        if self.mods != ev.modifiers {
            return false;
        }
        match (self.code, ev.code) {
            (KeyCode::Char(a), KeyCode::Char(b)) => ascii_lower(a) == ascii_lower(b),
            (a, b) => a == b,
        }
    }
}

/// The parts before a separator are parts of the whole string too.
proof fn lemma_split_prefix(s: Seq<char>, n: int, sep: char)
    requires
        0 < n <= s.len(),
        s[n - 1] == sep,
    ensures
        split_on(s, sep).len() > split_on(s.take(n - 1), sep).len(),
        split_on(s, sep).take(split_on(s.take(n - 1), sep).len() as int) == split_on(
            s.take(n - 1),
            sep,
        ),
    decreases s.len(),
{
    let p = split_on(s.take(n - 1), sep);
    lemma_split_on_nonempty(s.drop_last(), sep);
    if s.len() == n {
        assert(s.drop_last() =~= s.take(n - 1));
        assert(split_on(s, sep) == p.push(Seq::<char>::empty()));
        assert(p.push(Seq::<char>::empty()).take(p.len() as int) =~= p);
    } else {
        let t = s.drop_last();
        assert(t.take(n - 1) =~= s.take(n - 1));
        assert(t[n - 1] == sep);
        lemma_split_prefix(t, n, sep);
        let q = split_on(t, sep);
        if s.last() == sep {
            assert(q.push(Seq::<char>::empty()).take(p.len() as int) =~= q.take(p.len() as int));
        } else {
            assert(q.update(q.len() - 1, q.last().push(s.last())).take(p.len() as int) =~= q.take(
                p.len() as int,
            ));
        }
    }
}

/// Once a part names nothing, the parse stays failed whatever follows.
proof fn lemma_parse_parts_err_prefix(parts: Seq<Seq<char>>, k: int, bad: Seq<char>)
    requires
        0 <= k <= parts.len(),
        parse_parts(parts.take(k)) == Err::<(KeyMods, Option<KeyCode>), Seq<char>>(bad),
    ensures
        parse_parts(parts) == Err::<(KeyMods, Option<KeyCode>), Seq<char>>(bad),
    decreases parts.len(),
{
    if parts.len() == k {
        assert(parts.take(k) =~= parts);
    } else {
        assert(parts.drop_last().take(k) =~= parts.take(k));
        lemma_parse_parts_err_prefix(parts.drop_last(), k, bad);
    }
}

/// `unknown key '<part>' in binding '<s>'`.
fn unknown_key_message(bad: &Vec<char>, s: &str) -> (msg: String)
    ensures
        msg@ == "unknown key '"@ + bad@ + "' in binding '"@ + s@ + "'"@,
{
    let mut msg = String::new();
    push_str(&mut msg, "unknown key '");
    let b = string_of(bad);
    push_str(&mut msg, b.as_str());
    push_str(&mut msg, "' in binding '");
    push_str(&mut msg, s);
    push_str(&mut msg, "'");
    msg
}


/// Two strings that differ only in ASCII case.
pub open spec fn same_but_case(a: Seq<char>, b: Seq<char>) -> bool {
    lower_seq(a) == lower_seq(b)
}

proof fn lemma_case_drop_last(a: Seq<char>, b: Seq<char>)
    requires
        same_but_case(a, b),
        a.len() > 0,
    ensures
        a.len() == b.len(),
        same_but_case(a.drop_last(), b.drop_last()),
        lower(a.last()) == lower(b.last()),
{
    assert(lower_seq(a).len() == lower_seq(b).len());
    assert(lower_seq(a)[a.len() - 1] == lower_seq(b)[b.len() - 1]);
    assert(lower_seq(a.drop_last()) =~= lower_seq(b.drop_last())) by {
        assert forall|i: int| 0 <= i < a.len() - 1 implies lower_seq(a.drop_last())[i] == lower_seq(
            b.drop_last(),
        )[i] by {
            assert(lower_seq(a)[i] == lower_seq(b)[i]);
        }
    }
}

proof fn lemma_case_drop_first(a: Seq<char>, b: Seq<char>)
    requires
        same_but_case(a, b),
        a.len() > 0,
    ensures
        a.len() == b.len(),
        same_but_case(a.drop_first(), b.drop_first()),
        lower(a.first()) == lower(b.first()),
{
    assert(lower_seq(a).len() == lower_seq(b).len());
    assert(lower_seq(a)[0] == lower_seq(b)[0]);
    assert(lower_seq(a.drop_first()) =~= lower_seq(b.drop_first())) by {
        assert forall|i: int| 0 <= i < a.len() - 1 implies lower_seq(a.drop_first())[i] == lower_seq(
            b.drop_first(),
        )[i] by {
            assert(lower_seq(a)[i + 1] == lower_seq(b)[i + 1]);
        }
    }
}

proof fn lemma_case_ws(c: char, d: char)
    requires
        lower(c) == lower(d),
    ensures
        is_ws(c) == is_ws(d),
        (c == '+') == (d == '+'),
{
}

proof fn lemma_case_trim_end(a: Seq<char>, b: Seq<char>)
    requires
        same_but_case(a, b),
    ensures
        same_but_case(crate::text::trim_end(a), crate::text::trim_end(b)),
    decreases a.len(),
{
    if a.len() > 0 {
        lemma_case_drop_last(a, b);
        lemma_case_ws(a.last(), b.last());
        if is_ws(a.last()) {
            lemma_case_trim_end(a.drop_last(), b.drop_last());
        }
    } else {
        assert(lower_seq(b).len() == 0);
    }
}

proof fn lemma_case_trim_start(a: Seq<char>, b: Seq<char>)
    requires
        same_but_case(a, b),
    ensures
        same_but_case(crate::text::trim_start(a), crate::text::trim_start(b)),
    decreases a.len(),
{
    if a.len() > 0 {
        lemma_case_drop_first(a, b);
        lemma_case_ws(a.first(), b.first());
        if is_ws(a.first()) {
            lemma_case_trim_start(a.drop_first(), b.drop_first());
        }
    } else {
        assert(lower_seq(b).len() == 0);
    }
}

proof fn lemma_case_split(a: Seq<char>, b: Seq<char>)
    requires
        same_but_case(a, b),
    ensures
        split_on(a, '+').len() == split_on(b, '+').len(),
        forall|i: int|
            0 <= i < split_on(a, '+').len() ==> same_but_case(
                #[trigger] split_on(a, '+')[i],
                split_on(b, '+')[i],
            ),
    decreases a.len(),
{
    if a.len() > 0 {
        lemma_case_drop_last(a, b);
        lemma_case_ws(a.last(), b.last());
        lemma_case_split(a.drop_last(), b.drop_last());
        lemma_split_on_nonempty(a.drop_last(), '+');
        let p = split_on(a.drop_last(), '+');
        let q = split_on(b.drop_last(), '+');
        let pa = split_on(a, '+');
        let qb = split_on(b, '+');
        assert forall|i: int| 0 <= i < pa.len() implies same_but_case(#[trigger] pa[i], qb[i]) by {
            if a.last() == '+' {
                if i < p.len() {
                    assert(pa[i] == p[i] && qb[i] == q[i]);
                } else {
                    assert(pa[i] =~= Seq::<char>::empty() && qb[i] =~= Seq::<char>::empty());
                }
            } else if i < p.len() - 1 {
                assert(pa[i] == p[i] && qb[i] == q[i]);
            } else {
                assert(p.last() == p[p.len() - 1] && q.last() == q[q.len() - 1]);
                assert(same_but_case(p.last(), q.last()));
                assert(pa[i] == p.last().push(a.last()) && qb[i] == q.last().push(b.last()));
                assert(lower_seq(pa[i]) =~= lower_seq(p.last()).push(lower(a.last())));
                assert(lower_seq(qb[i]) =~= lower_seq(q.last()).push(lower(b.last())));
            }
        }
    } else {
        assert(lower_seq(b).len() == 0);
        assert(b =~= Seq::<char>::empty());
    }
}

/// Two fold states that agree: both an error, or the same modifiers and key.
pub open spec fn acc_agree(x: PartsAcc, y: PartsAcc) -> bool {
    (x is Err && y is Err) || (x is Ok && x == y)
}

/// Every key character gathered so far is lowercase.
pub open spec fn acc_lower(x: PartsAcc) -> bool {
    x matches Ok((_, Some(KeyCode::Char(c)))) ==> lower(c) == c
}

proof fn lemma_case_parts(ps: Seq<Seq<char>>, qs: Seq<Seq<char>>)
    requires
        ps.len() == qs.len(),
        forall|i: int| 0 <= i < ps.len() ==> same_but_case(#[trigger] ps[i], qs[i]),
    ensures
        acc_agree(parse_parts(ps), parse_parts(qs)),
        acc_lower(parse_parts(ps)),
    decreases ps.len(),
{
    if ps.len() > 0 {
        let p2 = ps.drop_last();
        let q2 = qs.drop_last();
        assert forall|i: int| 0 <= i < p2.len() implies same_but_case(#[trigger] p2[i], q2[i]) by {
            assert(same_but_case(ps[i], qs[i]));
        }
        lemma_case_parts(p2, q2);
        let a = ps.last();
        let b = qs.last();
        assert(same_but_case(ps[ps.len() - 1], qs[qs.len() - 1]));
        lemma_case_trim_end(a, b);
        lemma_case_trim_start(crate::text::trim_end(a), crate::text::trim_end(b));
        let ta = trim(a);
        let tb = trim(b);
        assert(lower_seq(ta).len() == lower_seq(tb).len());
        if ta.len() > 0 {
            assert(lower_seq(ta)[0] == lower_seq(tb)[0]);
            assert(lower(lower(ta[0])) == lower(ta[0]));
        }
        assert(classify_part(ta) == classify_part(tb));
    }
}

/// A character key is stored lowercase.
pub open spec fn key_lowercase(k: KeyBind) -> bool {
    match k.code {
        KeyCode::Char(c) => lower(c) == c,
        _ => true,
    }
}

/// Key binding names ignore ASCII case: two strings that differ only in
/// ASCII case parse to the same binding, or both fail; a lowercased string
/// differs from the original only in case; and a character key is always
/// stored lowercase.
pub proof fn law_parse_ignores_case(s: Seq<char>, t: Seq<char>)
    ensures
        same_but_case(s, lower_seq(s)),
        same_but_case(s, t) ==> (parse_binding(s) is Ok) == (parse_binding(t) is Ok),
        same_but_case(s, t) && parse_binding(s) is Ok ==> parse_binding(s) == parse_binding(t),
        match parse_binding(s) {
            Ok(k) => key_lowercase(k),
            Err(_) => true,
        },
{
    assert(lower_seq(lower_seq(s)) =~= lower_seq(s));
    let ps = split_on(s, '+');
    if same_but_case(s, t) {
        lemma_case_split(s, t);
        lemma_case_parts(ps, split_on(t, '+'));
    }
    lemma_case_parts(ps, ps);
    match parse_parts(ps) {
        Ok((m, Some(c))) => {
            assert(parse_binding(s) == Ok::<KeyBind, Seq<char>>(KeyBind { mods: m, code: c }));
            if let KeyCode::Char(ch) = c {
                assert(acc_lower(parse_parts(ps)));
                assert(lower(ch) == ch);
            }
        },
        _ => {},
    }
}


proof fn lemma_key_name_enter()
    ensures
        parse_binding("enter"@) == Ok::<KeyBind, Seq<char>>(KeyBind { mods: KeyMods::none_spec(), code: KeyCode::Enter }),
{
    reveal_strlit("enter");
    reveal_strlit("return");
    reveal_strlit("esc");
    reveal_strlit("escape");
    reveal_strlit("tab");
    reveal_strlit("backtab");
    reveal_strlit("backspace");
    reveal_strlit("space");
    reveal_strlit("up");
    reveal_strlit("down");
    reveal_strlit("left");
    reveal_strlit("right");
    reveal_strlit("home");
    reveal_strlit("end");
    reveal_strlit("pageup");
    reveal_strlit("pagedown");
    reveal_strlit("delete");
    reveal_strlit("del");
    reveal_strlit("insert");
    reveal_strlit("ins");
    reveal_strlit("ctrl");
    reveal_strlit("control");
    reveal_strlit("alt");
    reveal_strlit("meta");
    reveal_strlit("shift");
    let l = "enter"@;
    assert(lower_seq(l) =~= l);
    assert(classify_part(l) == PartKind::Code(KeyCode::Enter));
    lemma_name_parses(l, KeyCode::Enter);
}

proof fn lemma_key_name_return()
    ensures
        parse_binding("return"@) == Ok::<KeyBind, Seq<char>>(KeyBind { mods: KeyMods::none_spec(), code: KeyCode::Enter }),
{
    reveal_strlit("enter");
    reveal_strlit("return");
    reveal_strlit("esc");
    reveal_strlit("escape");
    reveal_strlit("tab");
    reveal_strlit("backtab");
    reveal_strlit("backspace");
    reveal_strlit("space");
    reveal_strlit("up");
    reveal_strlit("down");
    reveal_strlit("left");
    reveal_strlit("right");
    reveal_strlit("home");
    reveal_strlit("end");
    reveal_strlit("pageup");
    reveal_strlit("pagedown");
    reveal_strlit("delete");
    reveal_strlit("del");
    reveal_strlit("insert");
    reveal_strlit("ins");
    reveal_strlit("ctrl");
    reveal_strlit("control");
    reveal_strlit("alt");
    reveal_strlit("meta");
    reveal_strlit("shift");
    let l = "return"@;
    assert(lower_seq(l) =~= l);
    assert(classify_part(l) == PartKind::Code(KeyCode::Enter));
    lemma_name_parses(l, KeyCode::Enter);
}

proof fn lemma_key_name_esc()
    ensures
        parse_binding("esc"@) == Ok::<KeyBind, Seq<char>>(KeyBind { mods: KeyMods::none_spec(), code: KeyCode::Esc }),
{
    reveal_strlit("enter");
    reveal_strlit("return");
    reveal_strlit("esc");
    reveal_strlit("escape");
    reveal_strlit("tab");
    reveal_strlit("backtab");
    reveal_strlit("backspace");
    reveal_strlit("space");
    reveal_strlit("up");
    reveal_strlit("down");
    reveal_strlit("left");
    reveal_strlit("right");
    reveal_strlit("home");
    reveal_strlit("end");
    reveal_strlit("pageup");
    reveal_strlit("pagedown");
    reveal_strlit("delete");
    reveal_strlit("del");
    reveal_strlit("insert");
    reveal_strlit("ins");
    reveal_strlit("ctrl");
    reveal_strlit("control");
    reveal_strlit("alt");
    reveal_strlit("meta");
    reveal_strlit("shift");
    let l = "esc"@;
    assert(lower_seq(l) =~= l);
    assert(classify_part(l) == PartKind::Code(KeyCode::Esc));
    lemma_name_parses(l, KeyCode::Esc);
}

proof fn lemma_key_name_escape()
    ensures
        parse_binding("escape"@) == Ok::<KeyBind, Seq<char>>(KeyBind { mods: KeyMods::none_spec(), code: KeyCode::Esc }),
{
    reveal_strlit("enter");
    reveal_strlit("return");
    reveal_strlit("esc");
    reveal_strlit("escape");
    reveal_strlit("tab");
    reveal_strlit("backtab");
    reveal_strlit("backspace");
    reveal_strlit("space");
    reveal_strlit("up");
    reveal_strlit("down");
    reveal_strlit("left");
    reveal_strlit("right");
    reveal_strlit("home");
    reveal_strlit("end");
    reveal_strlit("pageup");
    reveal_strlit("pagedown");
    reveal_strlit("delete");
    reveal_strlit("del");
    reveal_strlit("insert");
    reveal_strlit("ins");
    reveal_strlit("ctrl");
    reveal_strlit("control");
    reveal_strlit("alt");
    reveal_strlit("meta");
    reveal_strlit("shift");
    let l = "escape"@;
    assert(lower_seq(l) =~= l);
    assert(classify_part(l) == PartKind::Code(KeyCode::Esc));
    lemma_name_parses(l, KeyCode::Esc);
}

proof fn lemma_key_name_tab()
    ensures
        parse_binding("tab"@) == Ok::<KeyBind, Seq<char>>(KeyBind { mods: KeyMods::none_spec(), code: KeyCode::Tab }),
{
    reveal_strlit("enter");
    reveal_strlit("return");
    reveal_strlit("esc");
    reveal_strlit("escape");
    reveal_strlit("tab");
    reveal_strlit("backtab");
    reveal_strlit("backspace");
    reveal_strlit("space");
    reveal_strlit("up");
    reveal_strlit("down");
    reveal_strlit("left");
    reveal_strlit("right");
    reveal_strlit("home");
    reveal_strlit("end");
    reveal_strlit("pageup");
    reveal_strlit("pagedown");
    reveal_strlit("delete");
    reveal_strlit("del");
    reveal_strlit("insert");
    reveal_strlit("ins");
    reveal_strlit("ctrl");
    reveal_strlit("control");
    reveal_strlit("alt");
    reveal_strlit("meta");
    reveal_strlit("shift");
    let l = "tab"@;
    assert(lower_seq(l) =~= l);
    assert(classify_part(l) == PartKind::Code(KeyCode::Tab));
    lemma_name_parses(l, KeyCode::Tab);
}

proof fn lemma_key_name_backtab()
    ensures
        parse_binding("backtab"@) == Ok::<KeyBind, Seq<char>>(KeyBind { mods: KeyMods::none_spec(), code: KeyCode::BackTab }),
{
    reveal_strlit("enter");
    reveal_strlit("return");
    reveal_strlit("esc");
    reveal_strlit("escape");
    reveal_strlit("tab");
    reveal_strlit("backtab");
    reveal_strlit("backspace");
    reveal_strlit("space");
    reveal_strlit("up");
    reveal_strlit("down");
    reveal_strlit("left");
    reveal_strlit("right");
    reveal_strlit("home");
    reveal_strlit("end");
    reveal_strlit("pageup");
    reveal_strlit("pagedown");
    reveal_strlit("delete");
    reveal_strlit("del");
    reveal_strlit("insert");
    reveal_strlit("ins");
    reveal_strlit("ctrl");
    reveal_strlit("control");
    reveal_strlit("alt");
    reveal_strlit("meta");
    reveal_strlit("shift");
    let l = "backtab"@;
    assert(lower_seq(l) =~= l);
    assert(classify_part(l) == PartKind::Code(KeyCode::BackTab));
    lemma_name_parses(l, KeyCode::BackTab);
}

proof fn lemma_key_name_backspace()
    ensures
        parse_binding("backspace"@) == Ok::<KeyBind, Seq<char>>(KeyBind { mods: KeyMods::none_spec(), code: KeyCode::Backspace }),
{
    reveal_strlit("enter");
    reveal_strlit("return");
    reveal_strlit("esc");
    reveal_strlit("escape");
    reveal_strlit("tab");
    reveal_strlit("backtab");
    reveal_strlit("backspace");
    reveal_strlit("space");
    reveal_strlit("up");
    reveal_strlit("down");
    reveal_strlit("left");
    reveal_strlit("right");
    reveal_strlit("home");
    reveal_strlit("end");
    reveal_strlit("pageup");
    reveal_strlit("pagedown");
    reveal_strlit("delete");
    reveal_strlit("del");
    reveal_strlit("insert");
    reveal_strlit("ins");
    reveal_strlit("ctrl");
    reveal_strlit("control");
    reveal_strlit("alt");
    reveal_strlit("meta");
    reveal_strlit("shift");
    let l = "backspace"@;
    assert(lower_seq(l) =~= l);
    assert(classify_part(l) == PartKind::Code(KeyCode::Backspace));
    lemma_name_parses(l, KeyCode::Backspace);
}

proof fn lemma_key_name_space()
    ensures
        parse_binding("space"@) == Ok::<KeyBind, Seq<char>>(KeyBind { mods: KeyMods::none_spec(), code: KeyCode::Char(' ') }),
{
    reveal_strlit("enter");
    reveal_strlit("return");
    reveal_strlit("esc");
    reveal_strlit("escape");
    reveal_strlit("tab");
    reveal_strlit("backtab");
    reveal_strlit("backspace");
    reveal_strlit("space");
    reveal_strlit("up");
    reveal_strlit("down");
    reveal_strlit("left");
    reveal_strlit("right");
    reveal_strlit("home");
    reveal_strlit("end");
    reveal_strlit("pageup");
    reveal_strlit("pagedown");
    reveal_strlit("delete");
    reveal_strlit("del");
    reveal_strlit("insert");
    reveal_strlit("ins");
    reveal_strlit("ctrl");
    reveal_strlit("control");
    reveal_strlit("alt");
    reveal_strlit("meta");
    reveal_strlit("shift");
    let l = "space"@;
    assert(lower_seq(l) =~= l);
    assert(classify_part(l) == PartKind::Code(KeyCode::Char(' ')));
    lemma_name_parses(l, KeyCode::Char(' '));
}

proof fn lemma_key_name_up()
    ensures
        parse_binding("up"@) == Ok::<KeyBind, Seq<char>>(KeyBind { mods: KeyMods::none_spec(), code: KeyCode::Up }),
{
    reveal_strlit("enter");
    reveal_strlit("return");
    reveal_strlit("esc");
    reveal_strlit("escape");
    reveal_strlit("tab");
    reveal_strlit("backtab");
    reveal_strlit("backspace");
    reveal_strlit("space");
    reveal_strlit("up");
    reveal_strlit("down");
    reveal_strlit("left");
    reveal_strlit("right");
    reveal_strlit("home");
    reveal_strlit("end");
    reveal_strlit("pageup");
    reveal_strlit("pagedown");
    reveal_strlit("delete");
    reveal_strlit("del");
    reveal_strlit("insert");
    reveal_strlit("ins");
    reveal_strlit("ctrl");
    reveal_strlit("control");
    reveal_strlit("alt");
    reveal_strlit("meta");
    reveal_strlit("shift");
    let l = "up"@;
    assert(lower_seq(l) =~= l);
    assert(classify_part(l) == PartKind::Code(KeyCode::Up));
    lemma_name_parses(l, KeyCode::Up);
}

proof fn lemma_key_name_down()
    ensures
        parse_binding("down"@) == Ok::<KeyBind, Seq<char>>(KeyBind { mods: KeyMods::none_spec(), code: KeyCode::Down }),
{
    reveal_strlit("enter");
    reveal_strlit("return");
    reveal_strlit("esc");
    reveal_strlit("escape");
    reveal_strlit("tab");
    reveal_strlit("backtab");
    reveal_strlit("backspace");
    reveal_strlit("space");
    reveal_strlit("up");
    reveal_strlit("down");
    reveal_strlit("left");
    reveal_strlit("right");
    reveal_strlit("home");
    reveal_strlit("end");
    reveal_strlit("pageup");
    reveal_strlit("pagedown");
    reveal_strlit("delete");
    reveal_strlit("del");
    reveal_strlit("insert");
    reveal_strlit("ins");
    reveal_strlit("ctrl");
    reveal_strlit("control");
    reveal_strlit("alt");
    reveal_strlit("meta");
    reveal_strlit("shift");
    let l = "down"@;
    assert(lower_seq(l) =~= l);
    assert(classify_part(l) == PartKind::Code(KeyCode::Down));
    lemma_name_parses(l, KeyCode::Down);
}

proof fn lemma_key_name_left()
    ensures
        parse_binding("left"@) == Ok::<KeyBind, Seq<char>>(KeyBind { mods: KeyMods::none_spec(), code: KeyCode::Left }),
{
    reveal_strlit("enter");
    reveal_strlit("return");
    reveal_strlit("esc");
    reveal_strlit("escape");
    reveal_strlit("tab");
    reveal_strlit("backtab");
    reveal_strlit("backspace");
    reveal_strlit("space");
    reveal_strlit("up");
    reveal_strlit("down");
    reveal_strlit("left");
    reveal_strlit("right");
    reveal_strlit("home");
    reveal_strlit("end");
    reveal_strlit("pageup");
    reveal_strlit("pagedown");
    reveal_strlit("delete");
    reveal_strlit("del");
    reveal_strlit("insert");
    reveal_strlit("ins");
    reveal_strlit("ctrl");
    reveal_strlit("control");
    reveal_strlit("alt");
    reveal_strlit("meta");
    reveal_strlit("shift");
    let l = "left"@;
    assert(lower_seq(l) =~= l);
    assert(classify_part(l) == PartKind::Code(KeyCode::Left));
    lemma_name_parses(l, KeyCode::Left);
}

proof fn lemma_key_name_right()
    ensures
        parse_binding("right"@) == Ok::<KeyBind, Seq<char>>(KeyBind { mods: KeyMods::none_spec(), code: KeyCode::Right }),
{
    reveal_strlit("enter");
    reveal_strlit("return");
    reveal_strlit("esc");
    reveal_strlit("escape");
    reveal_strlit("tab");
    reveal_strlit("backtab");
    reveal_strlit("backspace");
    reveal_strlit("space");
    reveal_strlit("up");
    reveal_strlit("down");
    reveal_strlit("left");
    reveal_strlit("right");
    reveal_strlit("home");
    reveal_strlit("end");
    reveal_strlit("pageup");
    reveal_strlit("pagedown");
    reveal_strlit("delete");
    reveal_strlit("del");
    reveal_strlit("insert");
    reveal_strlit("ins");
    reveal_strlit("ctrl");
    reveal_strlit("control");
    reveal_strlit("alt");
    reveal_strlit("meta");
    reveal_strlit("shift");
    let l = "right"@;
    assert(lower_seq(l) =~= l);
    assert(classify_part(l) == PartKind::Code(KeyCode::Right));
    lemma_name_parses(l, KeyCode::Right);
}

proof fn lemma_key_name_home()
    ensures
        parse_binding("home"@) == Ok::<KeyBind, Seq<char>>(KeyBind { mods: KeyMods::none_spec(), code: KeyCode::Home }),
{
    reveal_strlit("enter");
    reveal_strlit("return");
    reveal_strlit("esc");
    reveal_strlit("escape");
    reveal_strlit("tab");
    reveal_strlit("backtab");
    reveal_strlit("backspace");
    reveal_strlit("space");
    reveal_strlit("up");
    reveal_strlit("down");
    reveal_strlit("left");
    reveal_strlit("right");
    reveal_strlit("home");
    reveal_strlit("end");
    reveal_strlit("pageup");
    reveal_strlit("pagedown");
    reveal_strlit("delete");
    reveal_strlit("del");
    reveal_strlit("insert");
    reveal_strlit("ins");
    reveal_strlit("ctrl");
    reveal_strlit("control");
    reveal_strlit("alt");
    reveal_strlit("meta");
    reveal_strlit("shift");
    let l = "home"@;
    assert(lower_seq(l) =~= l);
    assert(classify_part(l) == PartKind::Code(KeyCode::Home));
    lemma_name_parses(l, KeyCode::Home);
}

proof fn lemma_key_name_end()
    ensures
        parse_binding("end"@) == Ok::<KeyBind, Seq<char>>(KeyBind { mods: KeyMods::none_spec(), code: KeyCode::End }),
{
    reveal_strlit("enter");
    reveal_strlit("return");
    reveal_strlit("esc");
    reveal_strlit("escape");
    reveal_strlit("tab");
    reveal_strlit("backtab");
    reveal_strlit("backspace");
    reveal_strlit("space");
    reveal_strlit("up");
    reveal_strlit("down");
    reveal_strlit("left");
    reveal_strlit("right");
    reveal_strlit("home");
    reveal_strlit("end");
    reveal_strlit("pageup");
    reveal_strlit("pagedown");
    reveal_strlit("delete");
    reveal_strlit("del");
    reveal_strlit("insert");
    reveal_strlit("ins");
    reveal_strlit("ctrl");
    reveal_strlit("control");
    reveal_strlit("alt");
    reveal_strlit("meta");
    reveal_strlit("shift");
    let l = "end"@;
    assert(lower_seq(l) =~= l);
    assert(classify_part(l) == PartKind::Code(KeyCode::End));
    lemma_name_parses(l, KeyCode::End);
}

proof fn lemma_key_name_pageup()
    ensures
        parse_binding("pageup"@) == Ok::<KeyBind, Seq<char>>(KeyBind { mods: KeyMods::none_spec(), code: KeyCode::PageUp }),
{
    reveal_strlit("enter");
    reveal_strlit("return");
    reveal_strlit("esc");
    reveal_strlit("escape");
    reveal_strlit("tab");
    reveal_strlit("backtab");
    reveal_strlit("backspace");
    reveal_strlit("space");
    reveal_strlit("up");
    reveal_strlit("down");
    reveal_strlit("left");
    reveal_strlit("right");
    reveal_strlit("home");
    reveal_strlit("end");
    reveal_strlit("pageup");
    reveal_strlit("pagedown");
    reveal_strlit("delete");
    reveal_strlit("del");
    reveal_strlit("insert");
    reveal_strlit("ins");
    reveal_strlit("ctrl");
    reveal_strlit("control");
    reveal_strlit("alt");
    reveal_strlit("meta");
    reveal_strlit("shift");
    let l = "pageup"@;
    assert(lower_seq(l) =~= l);
    assert(classify_part(l) == PartKind::Code(KeyCode::PageUp));
    lemma_name_parses(l, KeyCode::PageUp);
}

proof fn lemma_key_name_pagedown()
    ensures
        parse_binding("pagedown"@) == Ok::<KeyBind, Seq<char>>(KeyBind { mods: KeyMods::none_spec(), code: KeyCode::PageDown }),
{
    reveal_strlit("enter");
    reveal_strlit("return");
    reveal_strlit("esc");
    reveal_strlit("escape");
    reveal_strlit("tab");
    reveal_strlit("backtab");
    reveal_strlit("backspace");
    reveal_strlit("space");
    reveal_strlit("up");
    reveal_strlit("down");
    reveal_strlit("left");
    reveal_strlit("right");
    reveal_strlit("home");
    reveal_strlit("end");
    reveal_strlit("pageup");
    reveal_strlit("pagedown");
    reveal_strlit("delete");
    reveal_strlit("del");
    reveal_strlit("insert");
    reveal_strlit("ins");
    reveal_strlit("ctrl");
    reveal_strlit("control");
    reveal_strlit("alt");
    reveal_strlit("meta");
    reveal_strlit("shift");
    let l = "pagedown"@;
    assert(lower_seq(l) =~= l);
    assert(classify_part(l) == PartKind::Code(KeyCode::PageDown));
    lemma_name_parses(l, KeyCode::PageDown);
}

proof fn lemma_key_name_delete()
    ensures
        parse_binding("delete"@) == Ok::<KeyBind, Seq<char>>(KeyBind { mods: KeyMods::none_spec(), code: KeyCode::Delete }),
{
    reveal_strlit("enter");
    reveal_strlit("return");
    reveal_strlit("esc");
    reveal_strlit("escape");
    reveal_strlit("tab");
    reveal_strlit("backtab");
    reveal_strlit("backspace");
    reveal_strlit("space");
    reveal_strlit("up");
    reveal_strlit("down");
    reveal_strlit("left");
    reveal_strlit("right");
    reveal_strlit("home");
    reveal_strlit("end");
    reveal_strlit("pageup");
    reveal_strlit("pagedown");
    reveal_strlit("delete");
    reveal_strlit("del");
    reveal_strlit("insert");
    reveal_strlit("ins");
    reveal_strlit("ctrl");
    reveal_strlit("control");
    reveal_strlit("alt");
    reveal_strlit("meta");
    reveal_strlit("shift");
    let l = "delete"@;
    assert(lower_seq(l) =~= l);
    assert(classify_part(l) == PartKind::Code(KeyCode::Delete));
    lemma_name_parses(l, KeyCode::Delete);
}

proof fn lemma_key_name_del()
    ensures
        parse_binding("del"@) == Ok::<KeyBind, Seq<char>>(KeyBind { mods: KeyMods::none_spec(), code: KeyCode::Delete }),
{
    reveal_strlit("enter");
    reveal_strlit("return");
    reveal_strlit("esc");
    reveal_strlit("escape");
    reveal_strlit("tab");
    reveal_strlit("backtab");
    reveal_strlit("backspace");
    reveal_strlit("space");
    reveal_strlit("up");
    reveal_strlit("down");
    reveal_strlit("left");
    reveal_strlit("right");
    reveal_strlit("home");
    reveal_strlit("end");
    reveal_strlit("pageup");
    reveal_strlit("pagedown");
    reveal_strlit("delete");
    reveal_strlit("del");
    reveal_strlit("insert");
    reveal_strlit("ins");
    reveal_strlit("ctrl");
    reveal_strlit("control");
    reveal_strlit("alt");
    reveal_strlit("meta");
    reveal_strlit("shift");
    let l = "del"@;
    assert(lower_seq(l) =~= l);
    assert(classify_part(l) == PartKind::Code(KeyCode::Delete));
    lemma_name_parses(l, KeyCode::Delete);
}

proof fn lemma_key_name_insert()
    ensures
        parse_binding("insert"@) == Ok::<KeyBind, Seq<char>>(KeyBind { mods: KeyMods::none_spec(), code: KeyCode::Insert }),
{
    reveal_strlit("enter");
    reveal_strlit("return");
    reveal_strlit("esc");
    reveal_strlit("escape");
    reveal_strlit("tab");
    reveal_strlit("backtab");
    reveal_strlit("backspace");
    reveal_strlit("space");
    reveal_strlit("up");
    reveal_strlit("down");
    reveal_strlit("left");
    reveal_strlit("right");
    reveal_strlit("home");
    reveal_strlit("end");
    reveal_strlit("pageup");
    reveal_strlit("pagedown");
    reveal_strlit("delete");
    reveal_strlit("del");
    reveal_strlit("insert");
    reveal_strlit("ins");
    reveal_strlit("ctrl");
    reveal_strlit("control");
    reveal_strlit("alt");
    reveal_strlit("meta");
    reveal_strlit("shift");
    let l = "insert"@;
    assert(lower_seq(l) =~= l);
    assert(classify_part(l) == PartKind::Code(KeyCode::Insert));
    lemma_name_parses(l, KeyCode::Insert);
}

proof fn lemma_key_name_ins()
    ensures
        parse_binding("ins"@) == Ok::<KeyBind, Seq<char>>(KeyBind { mods: KeyMods::none_spec(), code: KeyCode::Insert }),
{
    reveal_strlit("enter");
    reveal_strlit("return");
    reveal_strlit("esc");
    reveal_strlit("escape");
    reveal_strlit("tab");
    reveal_strlit("backtab");
    reveal_strlit("backspace");
    reveal_strlit("space");
    reveal_strlit("up");
    reveal_strlit("down");
    reveal_strlit("left");
    reveal_strlit("right");
    reveal_strlit("home");
    reveal_strlit("end");
    reveal_strlit("pageup");
    reveal_strlit("pagedown");
    reveal_strlit("delete");
    reveal_strlit("del");
    reveal_strlit("insert");
    reveal_strlit("ins");
    reveal_strlit("ctrl");
    reveal_strlit("control");
    reveal_strlit("alt");
    reveal_strlit("meta");
    reveal_strlit("shift");
    let l = "ins"@;
    assert(lower_seq(l) =~= l);
    assert(classify_part(l) == PartKind::Code(KeyCode::Insert));
    lemma_name_parses(l, KeyCode::Insert);
}

/// A binding string that is one part, free of `+` and whitespace, naming a
/// key parses to that key without modifiers.
proof fn lemma_name_parses(l: Seq<char>, k: KeyCode)
    requires
        l.len() > 0,
        forall|i: int| 0 <= i < l.len() ==> l[i] != '+' && !is_ws(#[trigger] l[i]),
        classify_part(l) == PartKind::Code(k),
    ensures
        parse_binding(l) == Ok::<KeyBind, Seq<char>>(KeyBind { mods: KeyMods::none_spec(), code: k }),
{
    crate::term::lemma_split_no_sep(l, '+');
    assert(l.last() == l[l.len() - 1]);
    assert(l.first() == l[0]);
    assert(crate::text::trim_end(l) == l);
    assert(crate::text::trim_start(l) == l);
    let parts = seq![l];
    assert(parts.drop_last() =~= Seq::<Seq<char>>::empty());
    assert(parse_parts(parts) == parse_step(parse_parts(parts.drop_last()), l));
}

/// Each key name parses to the key it names, in any ASCII case and without
/// modifiers: `up` to Up, `down` to Down, `pageup` to PageUp, and so on;
/// different keys have different names, and only the documented aliases
/// (`return`, `escape`, `del`, `ins`) name the same key as another name.
pub proof fn law_key_names(s: Seq<char>)
    ensures
        same_but_case(s, "enter"@) ==> parse_binding(s) == Ok::<KeyBind, Seq<char>>(
            KeyBind { mods: KeyMods::none_spec(), code: KeyCode::Enter },
        ),
        same_but_case(s, "return"@) ==> parse_binding(s) == Ok::<KeyBind, Seq<char>>(
            KeyBind { mods: KeyMods::none_spec(), code: KeyCode::Enter },
        ),
        same_but_case(s, "esc"@) ==> parse_binding(s) == Ok::<KeyBind, Seq<char>>(
            KeyBind { mods: KeyMods::none_spec(), code: KeyCode::Esc },
        ),
        same_but_case(s, "escape"@) ==> parse_binding(s) == Ok::<KeyBind, Seq<char>>(
            KeyBind { mods: KeyMods::none_spec(), code: KeyCode::Esc },
        ),
        same_but_case(s, "tab"@) ==> parse_binding(s) == Ok::<KeyBind, Seq<char>>(
            KeyBind { mods: KeyMods::none_spec(), code: KeyCode::Tab },
        ),
        same_but_case(s, "backtab"@) ==> parse_binding(s) == Ok::<KeyBind, Seq<char>>(
            KeyBind { mods: KeyMods::none_spec(), code: KeyCode::BackTab },
        ),
        same_but_case(s, "backspace"@) ==> parse_binding(s) == Ok::<KeyBind, Seq<char>>(
            KeyBind { mods: KeyMods::none_spec(), code: KeyCode::Backspace },
        ),
        same_but_case(s, "space"@) ==> parse_binding(s) == Ok::<KeyBind, Seq<char>>(
            KeyBind { mods: KeyMods::none_spec(), code: KeyCode::Char(' ') },
        ),
        same_but_case(s, "up"@) ==> parse_binding(s) == Ok::<KeyBind, Seq<char>>(
            KeyBind { mods: KeyMods::none_spec(), code: KeyCode::Up },
        ),
        same_but_case(s, "down"@) ==> parse_binding(s) == Ok::<KeyBind, Seq<char>>(
            KeyBind { mods: KeyMods::none_spec(), code: KeyCode::Down },
        ),
        same_but_case(s, "left"@) ==> parse_binding(s) == Ok::<KeyBind, Seq<char>>(
            KeyBind { mods: KeyMods::none_spec(), code: KeyCode::Left },
        ),
        same_but_case(s, "right"@) ==> parse_binding(s) == Ok::<KeyBind, Seq<char>>(
            KeyBind { mods: KeyMods::none_spec(), code: KeyCode::Right },
        ),
        same_but_case(s, "home"@) ==> parse_binding(s) == Ok::<KeyBind, Seq<char>>(
            KeyBind { mods: KeyMods::none_spec(), code: KeyCode::Home },
        ),
        same_but_case(s, "end"@) ==> parse_binding(s) == Ok::<KeyBind, Seq<char>>(
            KeyBind { mods: KeyMods::none_spec(), code: KeyCode::End },
        ),
        same_but_case(s, "pageup"@) ==> parse_binding(s) == Ok::<KeyBind, Seq<char>>(
            KeyBind { mods: KeyMods::none_spec(), code: KeyCode::PageUp },
        ),
        same_but_case(s, "pagedown"@) ==> parse_binding(s) == Ok::<KeyBind, Seq<char>>(
            KeyBind { mods: KeyMods::none_spec(), code: KeyCode::PageDown },
        ),
        same_but_case(s, "delete"@) ==> parse_binding(s) == Ok::<KeyBind, Seq<char>>(
            KeyBind { mods: KeyMods::none_spec(), code: KeyCode::Delete },
        ),
        same_but_case(s, "del"@) ==> parse_binding(s) == Ok::<KeyBind, Seq<char>>(
            KeyBind { mods: KeyMods::none_spec(), code: KeyCode::Delete },
        ),
        same_but_case(s, "insert"@) ==> parse_binding(s) == Ok::<KeyBind, Seq<char>>(
            KeyBind { mods: KeyMods::none_spec(), code: KeyCode::Insert },
        ),
        same_but_case(s, "ins"@) ==> parse_binding(s) == Ok::<KeyBind, Seq<char>>(
            KeyBind { mods: KeyMods::none_spec(), code: KeyCode::Insert },
        ),
{
    lemma_key_name_enter();
    law_parse_ignores_case("enter"@, s);
    lemma_key_name_return();
    law_parse_ignores_case("return"@, s);
    lemma_key_name_esc();
    law_parse_ignores_case("esc"@, s);
    lemma_key_name_escape();
    law_parse_ignores_case("escape"@, s);
    lemma_key_name_tab();
    law_parse_ignores_case("tab"@, s);
    lemma_key_name_backtab();
    law_parse_ignores_case("backtab"@, s);
    lemma_key_name_backspace();
    law_parse_ignores_case("backspace"@, s);
    lemma_key_name_space();
    law_parse_ignores_case("space"@, s);
    lemma_key_name_up();
    law_parse_ignores_case("up"@, s);
    lemma_key_name_down();
    law_parse_ignores_case("down"@, s);
    lemma_key_name_left();
    law_parse_ignores_case("left"@, s);
    lemma_key_name_right();
    law_parse_ignores_case("right"@, s);
    lemma_key_name_home();
    law_parse_ignores_case("home"@, s);
    lemma_key_name_end();
    law_parse_ignores_case("end"@, s);
    lemma_key_name_pageup();
    law_parse_ignores_case("pageup"@, s);
    lemma_key_name_pagedown();
    law_parse_ignores_case("pagedown"@, s);
    lemma_key_name_delete();
    law_parse_ignores_case("delete"@, s);
    lemma_key_name_del();
    law_parse_ignores_case("del"@, s);
    lemma_key_name_insert();
    law_parse_ignores_case("insert"@, s);
    lemma_key_name_ins();
    law_parse_ignores_case("ins"@, s);
}

/// Key bindings for the TUI chrome (everything else is forwarded to the
/// focused pane).
#[derive(Debug, Clone, Copy, PartialEq, Eq, Structural)]
pub struct KeyBindings {
    pub focus_toggle: KeyBind,
    pub layout_toggle: KeyBind,
    pub scroll_mode: KeyBind,
    pub ratio_increase: KeyBind,
    pub ratio_decrease: KeyBind,
    pub toggle_agent: KeyBind,
    pub quit: KeyBind,
}

/// `Ctrl` plus a key.
pub open spec fn ctrl_bind(code: KeyCode) -> KeyBind {
    KeyBind { mods: KeyMods { control: true, ..KeyMods::none_spec() }, code }
}

impl KeyBindings {
    /// The default bindings: Ctrl+g, Ctrl+t, Ctrl+s, Ctrl+Right, Ctrl+Left,
    /// Ctrl+n, Ctrl+q.
    pub open spec fn default_spec() -> KeyBindings {
        KeyBindings {
            focus_toggle: ctrl_bind(KeyCode::Char('g')),
            layout_toggle: ctrl_bind(KeyCode::Char('t')),
            scroll_mode: ctrl_bind(KeyCode::Char('s')),
            ratio_increase: ctrl_bind(KeyCode::Right),
            ratio_decrease: ctrl_bind(KeyCode::Left),
            toggle_agent: ctrl_bind(KeyCode::Char('n')),
            quit: ctrl_bind(KeyCode::Char('q')),
        }
    }
}

impl Default for KeyBindings {
    fn default() -> (r: KeyBindings)
        ensures
            r == KeyBindings::default_spec(),
    {
        KeyBindings {
            focus_toggle: KeyBind::new(KeyMods::control(), KeyCode::Char('g')),
            layout_toggle: KeyBind::new(KeyMods::control(), KeyCode::Char('t')),
            scroll_mode: KeyBind::new(KeyMods::control(), KeyCode::Char('s')),
            ratio_increase: KeyBind::new(KeyMods::control(), KeyCode::Right),
            ratio_decrease: KeyBind::new(KeyMods::control(), KeyCode::Left),
            toggle_agent: KeyBind::new(KeyMods::control(), KeyCode::Char('n')),
            quit: KeyBind::new(KeyMods::control(), KeyCode::Char('q')),
        }
    }
}

/// The split ratio is kept in parts per million of the screen.
pub const RATIO_SCALE: u32 = 1_000_000;

/// Smallest split ratio (0.1), in parts per million.
pub const RATIO_MIN: u32 = 100_000;

/// Largest split ratio (0.9), in parts per million.
pub const RATIO_MAX: u32 = 900_000;

/// `r` clamped to `RATIO_MIN..=RATIO_MAX`.
pub open spec fn clamp_ratio(r: u32) -> u32 {
    if r < RATIO_MIN {
        RATIO_MIN
    } else if r > RATIO_MAX {
        RATIO_MAX
    } else {
        r
    }
}

/// `r` clamped to `RATIO_MIN..=RATIO_MAX`.
pub fn clamp_ratio_exec(r: u32) -> (c: u32)
    ensures
        c == clamp_ratio(r),
{
    if r < RATIO_MIN {
        RATIO_MIN
    } else if r > RATIO_MAX {
        RATIO_MAX
    } else {
        r
    }
}

/// Top-level configuration.
#[derive(Debug, Clone)]
pub struct Config {
    /// Command used to launch the agent pane (default `kimi`). May contain
    /// arguments, split on whitespace.
    pub agent: String,
    /// Shell for the user pane; the platform default when absent.
    pub shell: Option<String>,
    /// Initial split direction.
    pub layout: Layout,
    /// Initial split ratio for the left (or top) pane, in parts per million.
    pub ratio_ppm: u32,
    /// Maximum scrollback lines kept per pane.
    pub scrollback_lines: usize,
    pub keybindings: KeyBindings,
}

impl Default for Config {
    fn default() -> (c: Config)
        ensures
            c.agent@ == "kimi"@,
            c.shell is None,
            c.layout == Layout::Horizontal,
            c.ratio_ppm == 500_000,
            c.scrollback_lines == 10_000,
            c.keybindings == KeyBindings::default_spec(),
    {
        Config {
            agent: String::from_str("kimi"),
            shell: None,
            layout: Layout::Horizontal,
            ratio_ppm: 500_000,
            scrollback_lines: 10_000,
            keybindings: KeyBindings::default(),
        }
    }
}

impl Config {
    /// Shell to launch in the user pane: the configured one, else
    /// `default_shell`.
    pub fn resolved_shell(&self, default_shell: &str) -> (r: String)
        ensures
            r@ == match self.shell {
                Some(sh) => sh@,
                None => default_shell@,
            },
    {
        match &self.shell {
            Some(sh) => sh.clone(),
            None => String::from_str(default_shell),
        }
    }

    /// The configured ratio clamped to 0.1..=0.9.
    pub fn clamped_ratio(&self) -> (r: u32)
        ensures
            r == clamp_ratio(self.ratio_ppm),
            RATIO_MIN <= r <= RATIO_MAX,
    {
        clamp_ratio_exec(self.ratio_ppm)
    }
}

// ---------------------------------------------------------------------------
// First-run wizard
// ---------------------------------------------------------------------------

/// The wizard runs only when there is no config file yet and both stdin and
/// stdout are terminals.
pub fn should_run_wizard(config_exists: bool, interactive: bool) -> (r: bool)
    ensures
        r == (!config_exists && interactive),
{
    !config_exists && interactive
}

/// The settings read from a config file, before the required `agent` is
/// checked: every other field has its default when the file omits it.
#[derive(Debug, Clone)]
pub struct ConfigFields {
    pub agent: Option<String>,
    pub shell: Option<String>,
    pub layout: Layout,
    pub ratio_ppm: u32,
    pub scrollback_lines: usize,
    pub keybindings: KeyBindings,
}

/// The configuration a file's settings give: `agent` is required, and a
/// file without it is invalid.
pub fn check_fields(f: ConfigFields) -> (r: Result<Config, String>)
    ensures
        match f.agent {
            Some(a) => r matches Ok(c) && c == (Config {
                agent: a,
                shell: f.shell,
                layout: f.layout,
                ratio_ppm: f.ratio_ppm,
                scrollback_lines: f.scrollback_lines,
                keybindings: f.keybindings,
            }),
            None => r matches Err(m) && m@ == "missing field `agent`"@,
        },
{
    match f.agent {
        Some(a) => Ok(
            Config {
                agent: a,
                shell: f.shell,
                layout: f.layout,
                ratio_ppm: f.ratio_ppm,
                scrollback_lines: f.scrollback_lines,
                keybindings: f.keybindings,
            },
        ),
        None => Err(String::from_str("missing field `agent`")),
    }
}

/// What the config path holds.
#[derive(Debug)]
pub enum ConfigFile {
    /// No file yet.
    Missing,
    /// A valid configuration.
    Valid(Config),
    /// A file that cannot be used (a syntax error, a missing `agent`,
    /// wrong types), with the details.
    Invalid(String),
}

/// What happens before the TUI starts.
#[derive(Debug)]
pub enum Startup {
    /// Start the TUI with this configuration.
    Tui(Config),
    /// Run the setup wizard, which writes a new config file and exits;
    /// `problem` is what was wrong with the existing file, to report first.
    Wizard { problem: Option<String> },
    /// Report the problem and exit with a non-zero status.
    Fail(String),
}

/// The defaults: agent `kimi`, the platform shell, a horizontal half-half
/// split, 10000 lines of scrollback and the default key bindings.
pub open spec fn is_default_config(c: Config) -> bool {
    &&& c.agent@ == "kimi"@
    &&& c.shell is None
    &&& c.layout == Layout::Horizontal
    &&& c.ratio_ppm == 500_000
    &&& c.scrollback_lines == 10_000
    &&& c.keybindings == KeyBindings::default_spec()
}

/// Decides the start: with no config file an interactive run gets the
/// wizard and a non-interactive one the defaults (no file is written); a
/// valid file starts the TUI; an invalid file is never silently ignored:
/// an interactive run reports it and offers the wizard to rewrite it, a
/// non-interactive one fails.
pub fn startup(file: ConfigFile, interactive: bool) -> (r: Startup)
    ensures
        match file {
            ConfigFile::Missing => if interactive {
                r matches Startup::Wizard { problem } && problem is None
            } else {
                r matches Startup::Tui(c) && is_default_config(c)
            },
            ConfigFile::Valid(c) => r matches Startup::Tui(c2) && c2 == c,
            ConfigFile::Invalid(d) => if interactive {
                r matches Startup::Wizard { problem } && problem == Some(d)
            } else {
                r matches Startup::Fail(m) && m == d
            },
        },
{
    match file {
        ConfigFile::Missing => if should_run_wizard(false, interactive) {
            Startup::Wizard { problem: None }
        } else {
            Startup::Tui(Config::default())
        },
        ConfigFile::Valid(c) => Startup::Tui(c),
        ConfigFile::Invalid(d) => if interactive {
            Startup::Wizard { problem: Some(d) }
        } else {
            Startup::Fail(d)
        },
    }
}

/// One character escaped for a TOML basic string.
pub open spec fn escape_char(c: char) -> Seq<char> {
    if c == '\\' {
        seq!['\\', '\\']
    } else if c == '"' {
        seq!['\\', '"']
    } else {
        seq![c]
    }
}

/// `s` with every backslash doubled and every double quote preceded by a
/// backslash.
pub open spec fn toml_escape(s: Seq<char>) -> Seq<char>
    decreases s.len(),
{
    if s.len() == 0 {
        Seq::empty()
    } else {
        toml_escape(s.drop_last()) + escape_char(s.last())
    }
}

/// Reads the two escapes `\\` and `\"` of a TOML basic string back.
pub open spec fn toml_unescape(s: Seq<char>) -> Seq<char>
    decreases s.len(),
{
    if s.len() == 0 {
        Seq::empty()
    } else if s[0] == '\\' && s.len() >= 2 {
        seq![s[1]] + toml_unescape(s.skip(2))
    } else {
        seq![s[0]] + toml_unescape(s.skip(1))
    }
}

proof fn lemma_toml_escape_cons(c: char, t: Seq<char>)
    ensures
        toml_escape(seq![c] + t) == escape_char(c) + toml_escape(t),
    decreases t.len(),
{
    if t.len() == 0 {
        assert(seq![c] + t =~= seq![c]);
        assert(seq![c].drop_last() =~= Seq::<char>::empty());
        assert(seq![c].last() == c);
        assert(toml_escape(Seq::<char>::empty()) =~= Seq::<char>::empty());
        assert(toml_escape(seq![c]) == toml_escape(seq![c].drop_last()) + escape_char(c));
        assert(escape_char(c) + toml_escape(t) =~= escape_char(c));
        assert(Seq::<char>::empty() + escape_char(c) =~= escape_char(c));
    } else {
        assert((seq![c] + t).drop_last() =~= seq![c] + t.drop_last());
        assert((seq![c] + t).last() == t.last());
        lemma_toml_escape_cons(c, t.drop_last());
        assert(escape_char(c) + toml_escape(t.drop_last()) + escape_char(t.last()) =~= escape_char(
            c,
        ) + (toml_escape(t.drop_last()) + escape_char(t.last())));
    }
}

/// Unescaping what `toml_escape` produced gives back the string it was given:
/// the agent command written by the wizard reads back verbatim.
pub proof fn law_toml_escape_roundtrip(s: Seq<char>)
    ensures
        toml_unescape(toml_escape(s)) == s,
    decreases s.len(),
{
    if s.len() > 0 {
        let c = s[0];
        let t = s.skip(1);
        assert(s =~= seq![c] + t);
        lemma_toml_escape_cons(c, t);
        law_toml_escape_roundtrip(t);
        let e = escape_char(c) + toml_escape(t);
        if c == '\\' || c == '"' {
            assert(e[0] == '\\');
            assert(e.skip(2) =~= toml_escape(t));
            assert(seq![e[1]] + toml_unescape(e.skip(2)) =~= s);
        } else {
            assert(e.skip(1) =~= toml_escape(t));
            assert(seq![e[0]] + toml_unescape(e.skip(1)) =~= s);
        }
    } else {
        assert(toml_escape(s) =~= Seq::<char>::empty());
    }
}

/// The part of the default config file before the agent command.
pub const CONFIG_HEAD: &'static str = "# termassist configuration\n# Agent command for the agent pane (arguments allowed, split on whitespace).\nagent = \"";

/// The part of the default config file after the agent command.
pub const CONFIG_TAIL: &'static str = "\"\n# shell = \"/bin/zsh\"      # default: $SHELL (Unix) / %COMSPEC% or powershell (Windows)\nlayout = \"horizontal\"     # \"horizontal\" (left/right) or \"vertical\" (top/bottom)\nratio = 0.5               # fraction for the left/top pane, 0.1..=0.9\nscrollback_lines = 10000  # per pane\n\n[keybindings]\nfocus_toggle = \"Ctrl+g\"\nlayout_toggle = \"Ctrl+t\"\nscroll_mode = \"Ctrl+s\"\nratio_increase = \"Ctrl+Right\"\nratio_decrease = \"Ctrl+Left\"\ntoggle_agent = \"Ctrl+n\"\nquit = \"Ctrl+q\"\n";

/// The full default config file with `agent` substituted in (escaped for a
/// TOML basic string).
pub fn default_config_toml(agent: &str) -> (r: String)
    ensures
        r@ == CONFIG_HEAD@ + toml_escape(agent@) + CONFIG_TAIL@,
{
    let cs = chars_of(agent);
    let mut out = String::new();
    push_str(&mut out, CONFIG_HEAD);
    let mut k: usize = 0;
    while k < cs.len()
        invariant
            k <= cs.len(),
            cs@ == agent@,
            out@ == CONFIG_HEAD@ + toml_escape(cs@.take(k as int)),
        decreases cs.len() - k,
    {
        let c = cs[k];
        if c == '\\' {
            push_char(&mut out, '\\');
            push_char(&mut out, '\\');
        } else if c == '"' {
            push_char(&mut out, '\\');
            push_char(&mut out, '"');
        } else {
            push_char(&mut out, c);
        }
        proof {
            assert(cs@.take(k + 1).drop_last() =~= cs@.take(k as int));
            assert(cs@.take(k + 1).last() == c);
            assert(out@ =~= CONFIG_HEAD@ + toml_escape(cs@.take(k + 1)));
        }
        k = k + 1;
    }
    assert(cs@.take(cs.len() as int) =~= cs@);
    push_str(&mut out, CONFIG_TAIL);
    out
}

/// The question the first-run wizard asks.
pub fn wizard_prompt(config_path: &str) -> (r: String)
    ensures
        r@ == "termassist: first run \u{2014} no config file at "@ + config_path@
            + ".\nAgent command for the agent pane (arguments allowed): "@,
{
    let mut out = String::new();
    push_str(&mut out, "termassist: first run \u{2014} no config file at ");
    push_str(&mut out, config_path);
    push_str(&mut out, ".\nAgent command for the agent pane (arguments allowed): ");
    out
}

/// The wizard's answer: `input` is the line read (`None` when nothing could
/// be read). A blank answer, like end of input, means "not configured";
/// otherwise the trimmed line is the agent command.
pub fn prompt_agent_command(input: Option<&str>) -> (r: Option<String>)
    ensures
        match input {
            None => r is None,
            Some(line) => if trim(line@).len() == 0 {
                r is None
            } else {
                r matches Some(cmd) && cmd@ == trim(line@)
            },
        },
{
    match input {
        None => None,
        Some(line) => {
            let cs = chars_of(line);
            let t = trim_chars(cs.as_slice());
            if t.len() == 0 {
                None
            } else {
                Some(string_of(&t))
            }
        },
    }
}

/// Confirmation echoed after the default config has been written.
pub fn wizard_echo(agent: &str, path: &str) -> (r: String)
    ensures
        r@ == "agent = \""@ + agent@ + "\"\ntermassist: config written to "@ + path@,
{
    let mut out = String::new();
    push_str(&mut out, "agent = \"");
    push_str(&mut out, agent);
    push_str(&mut out, "\"\ntermassist: config written to ");
    push_str(&mut out, path);
    out
}

} // verus!
