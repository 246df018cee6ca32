//! A terminal emulator for one pane, backed by the `vt100` crate: feed raw
//! PTY bytes in, get the text of the screen and its scrollback out.

use vstd::prelude::*;
use crate::config::split_on;
use crate::text::{chars_of, push_char, trim, trim_end, trim_chars, trim_end_chars, is_ws};

verus! {

/// The `vt100` terminal emulator, held opaque: `vt100::Parser` cannot be
/// declared as an outside type (its type parameter is bounded by the
/// crate's `Callbacks` trait), so it is reached only through the wrappers
/// below, which keep the model in `Term` up to date.
#[verifier::external_body]
pub struct VtParser(pub vt100::Parser);

/// The text of the window that `vt100::Screen::contents` gives for a
/// terminal made with size `size0` (rows, cols) and scrollback capacity
/// `limit`, after the inputs `inputs` in order.
pub uninterp spec fn vt_text(size0: (u16, u16), limit: usize, inputs: Seq<TermInput>) -> Seq<char>;

/// The view offset that `vt100::Screen::scrollback` gives for the same
/// terminal after the same inputs.
pub uninterp spec fn vt_offset(size0: (u16, u16), limit: usize, inputs: Seq<TermInput>) -> usize;

/// `vt100::Parser::new`: a terminal of `rows` x `cols` keeping at most
/// `scrollback` lines of history, with no input yet. Both sizes must be
/// positive (the crate takes them as `NonZeroU16`).
#[verifier::external_body]
fn vt_new(rows: u16, cols: u16, scrollback: usize) -> (t: Term)
    requires
        rows >= 1,
        cols >= 1,
    ensures
        t.scrollback_limit_spec() == scrollback,
        t.initial_size_spec() == (rows, cols),
        t.inputs_spec() == Seq::<TermInput>::empty(),
{
    Term {
        parser: VtParser(
            vt100::Parser::new(
                core::num::NonZeroU16::new(rows).unwrap(),
                core::num::NonZeroU16::new(cols).unwrap(),
                scrollback,
            ),
        ),
        scrollback_limit: scrollback,
        size0: Ghost((rows, cols)),
        inputs: Ghost(Seq::empty()),
    }
}

/// `vt100::Parser::process`: the terminal interprets `bytes` as output of
/// its child process.
#[verifier::external_body]
fn vt_process(t: &mut Term, bytes: &[u8])
    ensures
        final(t).scrollback_limit_spec() == old(t).scrollback_limit_spec(),
        final(t).initial_size_spec() == old(t).initial_size_spec(),
        final(t).inputs_spec() == old(t).inputs_spec().push(TermInput::Output(bytes@)),
{
    t.parser.0.process(bytes);
}

/// `vt100::Parser::set_size`: the terminal takes the size `rows` x `cols`
/// (both positive).
#[verifier::external_body]
fn vt_set_size(t: &mut Term, rows: u16, cols: u16)
    requires
        rows >= 1,
        cols >= 1,
    ensures
        final(t).scrollback_limit_spec() == old(t).scrollback_limit_spec(),
        final(t).initial_size_spec() == old(t).initial_size_spec(),
        final(t).inputs_spec() == old(t).inputs_spec().push(TermInput::Resize(rows, cols)),
{
    t.parser.0.set_size(core::num::NonZeroU16::new(rows).unwrap(), core::num::NonZeroU16::new(cols).unwrap());
}

/// `vt100::Screen::set_scrollback`: shows the screen-height window that
/// starts `rows` lines back in the history. The crate clamps the offset to
/// the history length (none on the alternate screen), so it ends at most
/// `rows`. A view change only sets the offset (and widens the rows it then
/// shows to the screen width), so the text and offset shown afterwards are
/// those the terminal would show had the view changes just before it not
/// been made.
#[verifier::external_body]
fn vt_set_scrollback(t: &mut Term, rows: usize)
    ensures
        final(t).scrollback_limit_spec() == old(t).scrollback_limit_spec(),
        final(t).initial_size_spec() == old(t).initial_size_spec(),
        final(t).inputs_spec() == old(t).inputs_spec().push(TermInput::View(rows)),
        vt_offset(final(t).initial_size_spec(), final(t).scrollback_limit_spec(), final(t).inputs_spec())
            <= rows,
        vt_text(final(t).initial_size_spec(), final(t).scrollback_limit_spec(), final(t).inputs_spec())
            == vt_text(
            old(t).initial_size_spec(),
            old(t).scrollback_limit_spec(),
            drop_trailing_views(old(t).inputs_spec()).push(TermInput::View(rows)),
        ),
        vt_offset(final(t).initial_size_spec(), final(t).scrollback_limit_spec(), final(t).inputs_spec())
            == vt_offset(
            old(t).initial_size_spec(),
            old(t).scrollback_limit_spec(),
            drop_trailing_views(old(t).inputs_spec()).push(TermInput::View(rows)),
        ),
{
    t.parser.0.screen_mut().set_scrollback(rows);
}

/// `vt100::Screen::scrollback`: the current view offset into the history.
#[verifier::external_body]
fn vt_scrollback(t: &Term) -> (r: usize)
    ensures
        r == vt_offset(t.initial_size_spec(), t.scrollback_limit_spec(), t.inputs_spec()),
{
    t.parser.0.screen().scrollback()
}

/// `vt100::Screen::size`: the number of rows of the screen, which is the
/// last size given (only `set_size` changes it) and which the crate keeps
/// positive.
#[verifier::external_body]
fn vt_rows(t: &Term) -> (r: u16)
    ensures
        r == size_after(t.initial_size_spec(), t.inputs_spec()).0,
        r >= 1,
{
    t.parser.0.screen().size().0.get()
}

/// `vt100::Screen::contents`: the text of the window shown, rows separated
/// by newlines.
#[verifier::external_body]
fn vt_contents(t: &Term) -> (r: String)
    ensures
        r@ == vt_text(t.initial_size_spec(), t.scrollback_limit_spec(), t.inputs_spec()),
{
    t.parser.0.screen().contents()
}

/// `l` without one trailing carriage return.
pub open spec fn strip_cr(l: Seq<char>) -> Seq<char> {
    if l.len() > 0 && l.last() == '\r' {
        l.drop_last()
    } else {
        l
    }
}

/// `str::lines`: the lines of `s`, split at `\n` (a `\r` before it is
/// dropped); a final line ending is optional and an empty string has no
/// lines.
pub open spec fn lines_of(s: Seq<char>) -> Seq<Seq<char>> {
    let p = split_on(s, '\n');
    let body = p.drop_last().map_values(|l: Seq<char>| strip_cr(l));
    if p.last().len() == 0 {
        body
    } else {
        body.push(p.last())
    }
}

/// Appends a line to the text: separated by a newline, except that nothing
/// precedes the first line while the text is still empty.
pub open spec fn append_line(text: Seq<char>, line: Seq<char>) -> Seq<char> {
    if text.len() == 0 {
        line
    } else {
        text.push('\n') + line
    }
}

/// Appends the lines in order.
pub open spec fn append_lines(text: Seq<char>, ls: Seq<Seq<char>>) -> Seq<char>
    decreases ls.len(),
{
    if ls.len() == 0 {
        text
    } else {
        append_line(append_lines(text, ls.drop_last()), ls.last())
    }
}

/// The lines of a window after the first `skip` ones.
pub open spec fn window_lines(chunk: Seq<char>, skip: nat) -> Seq<Seq<char>> {
    let ls = lines_of(chunk);
    if skip >= ls.len() {
        Seq::empty()
    } else {
        ls.skip(skip as int)
    }
}

/// The lines that window `i` shares with the one before it: none for the
/// first window, else the height less the distance between the offsets.
pub open spec fn skip_at(offs: Seq<usize>, i: int, height: nat) -> nat {
    if i == 0 {
        0
    } else {
        (height - (offs[i - 1] - offs[i])) as nat
    }
}

/// The windows' text joined, each window's lines shared with the previous
/// window dropped.
pub open spec fn merge_windows_spec(chunks: Seq<Seq<char>>, offs: Seq<usize>, height: nat) -> Seq<
    char,
>
    decreases chunks.len(),
{
    if chunks.len() == 0 {
        Seq::empty()
    } else {
        append_lines(
            merge_windows_spec(chunks.drop_last(), offs.drop_last(), height),
            window_lines(chunks.last(), skip_at(offs, chunks.len() - 1, height)),
        )
    }
}

/// Offsets of the windows to visit, oldest first: `max`, `max - height`, ...,
/// down to 0.
pub open spec fn window_offsets_spec(max: nat, height: nat) -> Seq<usize>
    decreases max,
{
    if max == 0 || height == 0 {
        seq![0usize]
    } else {
        seq![max as usize] + window_offsets_spec(if max >= height {
            (max - height) as nat
        } else {
            0
        }, height)
    }
}

/// Whether consecutive offsets step down by at least 1 and at most
/// `height`, so that consecutive windows overlap or touch.
pub open spec fn offsets_ok(offs: Seq<usize>, height: nat) -> bool {
    forall|i: int| 0 < i < offs.len() ==> offs[i] <= #[trigger] offs[i - 1] && offs[i - 1] - offs[i]
        <= height
}

/// `rows` without the blank (whitespace-only) rows at its end.
pub open spec fn drop_blank_tail(rows: Seq<Seq<char>>) -> Seq<Seq<char>>
    decreases rows.len(),
{
    if rows.len() > 0 && trim(rows.last()).len() == 0 {
        drop_blank_tail(rows.drop_last())
    } else {
        rows
    }
}

/// The rows joined with newlines.
pub open spec fn join_lines(rows: Seq<Seq<char>>) -> Seq<char>
    decreases rows.len(),
{
    if rows.len() == 0 {
        Seq::empty()
    } else if rows.len() == 1 {
        rows[0]
    } else {
        join_lines(rows.drop_last()).push('\n') + rows.last()
    }
}

/// The captured text as returned: trailing blank rows removed, only the
/// last `lines` rows when a limit is given, trailing whitespace of each row
/// removed, rows joined with newlines.
pub open spec fn finish_capture_spec(text: Seq<char>, lines: Option<usize>) -> Seq<char> {
    let rows = drop_blank_tail(lines_of(text));
    let start: int = match lines {
        Some(n) => if rows.len() > n {
            rows.len() - n
        } else {
            0
        },
        None => 0,
    };
    join_lines(rows.skip(start).map_values(|l: Seq<char>| trim_end(l)))
}

proof fn lemma_split_nonempty(s: Seq<char>)
    ensures
        split_on(s, '\n').len() >= 1,
{
    crate::config::lemma_split_on_nonempty(s, '\n');
}

/// The lines of a text (`str::lines`).
pub fn lines_of_chars(s: &[char]) -> (r: Vec<Vec<char>>)
    ensures
        r@.map_values(|l: Vec<char>| l@) == lines_of(s@),
{
    let mut out: Vec<Vec<char>> = Vec::new();
    let mut cur: Vec<char> = Vec::new();
    let mut i: usize = 0;
    proof {
        assert(s@.take(0) =~= Seq::<char>::empty());
        lemma_split_nonempty(s@.take(0));
    }
    while i < s.len()
        invariant
            i <= s.len(),
            split_on(s@.take(i as int), '\n').len() >= 1,
            cur@ == split_on(s@.take(i as int), '\n').last(),
            out@.map_values(|l: Vec<char>| l@) == split_on(s@.take(i as int), '\n').drop_last().map_values(
                |l: Seq<char>| strip_cr(l),
            ),
        decreases s.len() - i,
    {
        let c = s[i];
        let ghost before = split_on(s@.take(i as int), '\n');
        proof {
            assert(s@.take(i + 1).drop_last() =~= s@.take(i as int));
            assert(s@.take(i + 1).last() == c);
        }
        if c == '\n' {
            let n = cur.len();
            let line = if n > 0 && cur[n - 1] == '\r' {
                let l = crate::text::slice_to_vec(cur.as_slice(), 0, n - 1);
                assert(l@ =~= cur@.drop_last());
                l
            } else {
                let l = crate::text::slice_to_vec(cur.as_slice(), 0, n);
                assert(l@ =~= cur@);
                l
            };
            assert(line@ == strip_cr(cur@));
            let ghost old_out = out@;
            out.push(line);
            proof {
                let after = before.push(Seq::<char>::empty());
                assert(after.drop_last() =~= before);
                assert(out@.map_values(|l: Vec<char>| l@) =~= old_out.map_values(|l: Vec<char>| l@).push(
                    line@,
                ));
                assert(before =~= before.drop_last().push(before.last()));
                assert(before.map_values(|l: Seq<char>| strip_cr(l)) =~= before.drop_last().map_values(
                    |l: Seq<char>| strip_cr(l),
                ).push(strip_cr(before.last())));
                assert(out@.map_values(|l: Vec<char>| l@) =~= after.drop_last().map_values(
                    |l: Seq<char>| strip_cr(l),
                ));
            }
            cur = Vec::new();
        } else {
            cur.push(c);
            proof {
                let after = before.update(before.len() - 1, before.last().push(c));
                assert(after.drop_last() =~= before.drop_last());
            }
        }
        i = i + 1;
    }
    assert(s@.take(s.len() as int) =~= s@);
    if cur.len() > 0 {
        let ghost old_out = out@;
        out.push(cur);
        proof {
            assert(out@.map_values(|l: Vec<char>| l@) =~= old_out.map_values(|l: Vec<char>| l@).push(
                cur@,
            ));
            let p = split_on(s@, '\n');
            assert(out@.map_values(|l: Vec<char>| l@) =~= p.drop_last().map_values(
                |l: Seq<char>| strip_cr(l),
            ).push(p.last()));
        }
    }
    out
}


/// Appends a line to the text (`append_line`).
fn push_line(text: &mut Vec<char>, line: &[char])
    ensures
        final(text)@ == append_line(old(text)@, line@),
{
    if text.len() > 0 {
        text.push('\n');
    }
    let mut k: usize = 0;
    let ghost base = text@;
    while k < line.len()
        invariant
            k <= line.len(),
            text@ == base + line@.take(k as int),
        decreases line.len() - k,
    {
        text.push(line[k]);
        k = k + 1;
        assert(text@ =~= base + line@.take(k as int));
    }
    assert(line@.take(line.len() as int) =~= line@);
    assert(old(text)@.len() == 0 ==> base + line@ =~= line@);
}

/// Appends the lines of one window after the first `skip` ones.
fn push_window(text: &mut Vec<char>, ls: &Vec<Vec<char>>, skip: usize)
    ensures
        final(text)@ == append_lines(
            old(text)@,
            if skip >= ls@.len() {
                Seq::<Seq<char>>::empty()
            } else {
                ls@.map_values(|l: Vec<char>| l@).skip(skip as int)
            },
        ),
{
    let ghost lv = ls@.map_values(|l: Vec<char>| l@);
    let ghost base = text@;
    if skip >= ls.len() {
        return;
    }
    let mut j = skip;
    assert(lv.subrange(skip as int, skip as int) =~= Seq::<Seq<char>>::empty());
    while j < ls.len()
        invariant
            skip <= j <= ls.len(),
            lv == ls@.map_values(|l: Vec<char>| l@),
            text@ == append_lines(base, lv.subrange(skip as int, j as int)),
        decreases ls.len() - j,
    {
        push_line(text, ls[j].as_slice());
        proof {
            assert(lv.subrange(skip as int, j + 1).drop_last() =~= lv.subrange(skip as int, j as int));
            assert(lv.subrange(skip as int, j + 1).last() == ls@[j as int]@);
        }
        j = j + 1;
    }
    assert(lv.subrange(skip as int, ls.len() as int) =~= lv.skip(skip as int));
}

/// The offsets of the windows to visit, oldest first: `max`,
/// `max - height`, ..., 0.
pub fn window_offsets(max: usize, height: usize) -> (r: Vec<usize>)
    requires
        height >= 1,
    ensures
        r@ == window_offsets_spec(max as nat, height as nat),
        offsets_ok(r@, height as nat),
        r@.len() >= 1,
        r@.last() == 0,
{
    let mut r: Vec<usize> = Vec::new();
    let mut o = max;
    while o > 0
        invariant
            height >= 1,
            r@ + window_offsets_spec(o as nat, height as nat) == window_offsets_spec(
                max as nat,
                height as nat,
            ),
            r@.len() > 0 ==> r@.last() - o <= height && r@.last() > o,
            offsets_ok(r@, height as nat),
        decreases o,
    {
        let ghost old_r = r@;
        let next = o.saturating_sub(height);
        proof {
            assert(window_offsets_spec(o as nat, height as nat) == seq![o] + window_offsets_spec(
                next as nat,
                height as nat,
            ));
            assert(old_r + (seq![o] + window_offsets_spec(next as nat, height as nat)) =~= old_r.push(
                o,
            ) + window_offsets_spec(next as nat, height as nat));
        }
        r.push(o);
        o = next;
        proof {
            assert forall|i: int| 0 < i < r@.len() implies r@[i] <= #[trigger] r@[i - 1] && r@[i - 1]
                - r@[i] <= height by {
                if i < r@.len() - 1 {
                    assert(r@[i] == old_r[i] && r@[i - 1] == old_r[i - 1]);
                }
            }
        }
    }
    let ghost old_r = r@;
    r.push(0);
    proof {
        assert(window_offsets_spec(0, height as nat) == seq![0usize]);
        assert(old_r + seq![0usize] =~= r@);
        assert forall|i: int| 0 < i < r@.len() implies r@[i] <= #[trigger] r@[i - 1] && r@[i - 1] - r@[i]
            <= height by {
            if i < r@.len() - 1 {
                assert(r@[i] == old_r[i] && r@[i - 1] == old_r[i - 1]);
            }
        }
    }
    r
}

/// The windows' text joined: `chunks[i]` is the window shown at offset
/// `offs[i]`; from each window, the lines it shares with the previous one
/// are dropped.
pub fn merge_windows(chunks: &Vec<String>, offs: &Vec<usize>, height: usize) -> (r: Vec<char>)
    requires
        chunks@.len() == offs@.len(),
        offsets_ok(offs@, height as nat),
    ensures
        r@ == merge_windows_spec(chunks@.map_values(|c: String| c@), offs@, height as nat),
{
    let ghost cv = chunks@.map_values(|c: String| c@);
    let mut text: Vec<char> = Vec::new();
    let mut i: usize = 0;
    assert(cv.take(0) =~= Seq::<Seq<char>>::empty());
    while i < chunks.len()
        invariant
            i <= chunks.len(),
            chunks@.len() == offs@.len(),
            offsets_ok(offs@, height as nat),
            cv == chunks@.map_values(|c: String| c@),
            text@ == merge_windows_spec(cv.take(i as int), offs@.take(i as int), height as nat),
        decreases chunks.len() - i,
    {
        let cs = chars_of(chunks[i].as_str());
        let ls = lines_of_chars(cs.as_slice());
        let skip: usize = if i == 0 {
            0
        } else {
            assert(offs@[i as int] <= offs@[i - 1] && offs@[i - 1] - offs@[i as int] <= height);
            height - (offs[i - 1] - offs[i])
        };
        push_window(&mut text, &ls, skip);
        proof {
            assert(cv.take(i + 1).drop_last() =~= cv.take(i as int));
            assert(offs@.take(i + 1).drop_last() =~= offs@.take(i as int));
            assert(cv.take(i + 1).last() == cs@);
            assert(skip_at(offs@.take(i + 1), i as int, height as nat) == skip as nat);
        }
        i = i + 1;
    }
    assert(cv.take(chunks.len() as int) =~= cv);
    assert(offs@.take(chunks.len() as int) =~= offs@);
    text
}

/// The captured text as returned by `Term::capture`: trailing blank rows
/// removed, only the last `lines` rows when a limit is given, trailing
/// whitespace of each row removed, rows joined with newlines.
pub fn finish_capture(text: &[char], lines: Option<usize>) -> (r: String)
    ensures
        r@ == finish_capture_spec(text@, lines),
{
    let rows = lines_of_chars(text);
    let ghost rv = rows@.map_values(|l: Vec<char>| l@);
    let mut k = rows.len();
    assert(rv.take(k as int) =~= rv);
    while k > 0 && trim_chars(rows[k - 1].as_slice()).len() == 0
        invariant
            k <= rows.len(),
            rv == rows@.map_values(|l: Vec<char>| l@),
            drop_blank_tail(rv.take(k as int)) == drop_blank_tail(rv),
        decreases k,
    {
        proof {
            assert(rv.take(k as int).drop_last() =~= rv.take(k - 1));
            assert(rv.take(k as int).last() == rows@[k - 1]@);
        }
        k = k - 1;
    }
    assert(drop_blank_tail(rv.take(k as int)) == rv.take(k as int));
    let ghost kept = rv.take(k as int);
    let start: usize = match lines {
        Some(n) => if k > n {
            k - n
        } else {
            0
        },
        None => 0,
    };
    let ghost tail = kept.skip(start as int).map_values(|l: Seq<char>| trim_end(l));
    let mut out = String::new();
    let mut idx = start;
    assert(tail.take(0) =~= Seq::<Seq<char>>::empty());
    while idx < k
        invariant
            start <= idx <= k <= rows.len(),
            rv == rows@.map_values(|l: Vec<char>| l@),
            kept == rv.take(k as int),
            tail == kept.skip(start as int).map_values(|l: Seq<char>| trim_end(l)),
            out@ == join_lines(tail.take(idx - start)),
        decreases k - idx,
    {
        let line = trim_end_chars(rows[idx].as_slice());
        if idx > start {
            push_char(&mut out, '\n');
        }
        let mut j: usize = 0;
        let ghost base = out@;
        while j < line.len()
            invariant
                j <= line.len(),
                out@ == base + line@.take(j as int),
            decreases line.len() - j,
        {
            push_char(&mut out, line[j]);
            j = j + 1;
            assert(out@ =~= base + line@.take(j as int));
        }
        proof {
            assert(line@.take(line.len() as int) =~= line@);
            assert(tail[idx - start] == line@);
            let m = idx - start;
            assert(tail.take(m + 1).drop_last() =~= tail.take(m));
            if m == 0 {
                assert(out@ =~= line@);
                assert(join_lines(tail.take(1)) == tail.take(1)[0]);
            }
        }
        idx = idx + 1;
    }
    assert(tail.take(k - start) =~= tail);
    out
}

/// Rows that survive being joined with newlines and split again: none is
/// empty, holds a line break or ends in a carriage return.
pub open spec fn plain_rows(rows: Seq<Seq<char>>) -> bool {
    forall|i: int|
        0 <= i < rows.len() ==> (#[trigger] rows[i]).len() > 0 && rows[i].last() != '\r' && (forall|j: int|
            0 <= j < rows[i].len() ==> rows[i][j] != '\n')
}

pub(crate) proof fn lemma_split_no_sep(t: Seq<char>, sep: char)
    requires
        forall|j: int| 0 <= j < t.len() ==> t[j] != sep,
    ensures
        split_on(t, sep) == seq![t],
    decreases t.len(),
{
    if t.len() > 0 {
        let t2 = t.drop_last();
        assert forall|j: int| 0 <= j < t2.len() implies t2[j] != sep by {
            assert(t2[j] == t[j]);
        }
        lemma_split_no_sep(t2, sep);
        assert(t.last() == t[t.len() - 1]);
        let p = seq![t2];
        assert(split_on(t, sep) == p.update(p.len() - 1, p.last().push(t.last())));
        assert(t2.push(t.last()) =~= t);
        assert(p.update(0, t) =~= seq![t]);
    } else {
        assert(t =~= Seq::<char>::empty());
    }
}

proof fn lemma_split_append(s: Seq<char>, t: Seq<char>, sep: char)
    requires
        forall|j: int| 0 <= j < t.len() ==> t[j] != sep,
    ensures
        split_on(s.push(sep) + t, sep) == split_on(s, sep).push(t),
    decreases t.len(),
{
    crate::config::lemma_split_on_nonempty(s, sep);
    if t.len() == 0 {
        assert(s.push(sep) + t =~= s.push(sep));
        assert(s.push(sep).drop_last() =~= s);
        assert(t =~= Seq::<char>::empty());
    } else {
        let t2 = t.drop_last();
        assert forall|j: int| 0 <= j < t2.len() implies t2[j] != sep by {
            assert(t2[j] == t[j]);
        }
        lemma_split_append(s, t2, sep);
        let whole = s.push(sep) + t;
        assert(whole.drop_last() =~= s.push(sep) + t2);
        assert(whole.last() == t[t.len() - 1]);
        let p = split_on(s, sep).push(t2);
        assert(split_on(whole, sep) == p.update(p.len() - 1, p.last().push(whole.last())));
        assert(t2.push(t.last()) =~= t);
        assert(p.update(p.len() - 1, t) =~= split_on(s, sep).push(t));
    }
}

proof fn lemma_join_nonempty(rows: Seq<Seq<char>>)
    requires
        rows.len() >= 1,
        rows[0].len() > 0,
    ensures
        join_lines(rows).len() > 0,
    decreases rows.len(),
{
    if rows.len() > 1 {
        lemma_join_nonempty(rows.drop_last());
    }
}

/// No row holds a line break.
pub open spec fn no_breaks(rows: Seq<Seq<char>>) -> bool {
    forall|i: int, j: int| 0 <= i < rows.len() && 0 <= j < rows[i].len() ==> #[trigger] rows[i][j] != '\n'
}

/// Rows that `str::lines` gives back from their join: none holds a line
/// break or ends in a carriage return, and the last is not empty.
pub open spec fn line_rows(rows: Seq<Seq<char>>) -> bool {
    &&& no_breaks(rows)
    &&& forall|i: int| 0 <= i < rows.len() ==> (#[trigger] rows[i]).len() == 0 || rows[i].last() != '\r'
    &&& rows.len() > 0 ==> rows.last().len() > 0
}

proof fn lemma_plain_line_rows(rows: Seq<Seq<char>>)
    requires
        plain_rows(rows),
    ensures
        line_rows(rows),
{
    assert forall|i: int, j: int| 0 <= i < rows.len() && 0 <= j < rows[i].len() implies #[trigger] rows[i][j]
        != '\n' by {
        assert(rows[i].len() > 0);
    }
    if rows.len() > 0 {
        assert(rows[rows.len() - 1].len() > 0);
    }
}

proof fn lemma_split_join(rows: Seq<Seq<char>>)
    requires
        rows.len() >= 1,
        no_breaks(rows),
    ensures
        split_on(join_lines(rows), '\n') == rows,
    decreases rows.len(),
{
    let last = rows.last();
    assert(rows[rows.len() - 1] == last);
    assert forall|j: int| 0 <= j < last.len() implies last[j] != '\n' by {
        assert(rows[rows.len() - 1][j] != '\n');
    }
    if rows.len() == 1 {
        lemma_split_no_sep(rows[0], '\n');
        assert(seq![rows[0]] =~= rows);
    } else {
        let r2 = rows.drop_last();
        assert forall|i: int, j: int| 0 <= i < r2.len() && 0 <= j < r2[i].len() implies #[trigger] r2[i][j]
            != '\n' by {
            assert(r2[i] == rows[i]);
            assert(rows[i][j] != '\n');
        }
        lemma_split_join(r2);
        lemma_split_append(join_lines(r2), last, '\n');
        assert(r2.push(last) =~= rows);
    }
}

/// Rows joined with newlines are split back into the same rows by
/// `str::lines`.
pub proof fn lemma_lines_join(rows: Seq<Seq<char>>)
    requires
        rows.len() >= 1,
        line_rows(rows),
    ensures
        lines_of(join_lines(rows)) == rows,
{
    lemma_split_join(rows);
    let p = split_on(join_lines(rows), '\n');
    assert(rows[rows.len() - 1].len() > 0);
    assert(p.drop_last().map_values(|l: Seq<char>| strip_cr(l)) =~= rows.drop_last()) by {
        assert forall|i: int| 0 <= i < rows.len() - 1 implies strip_cr(#[trigger] rows[i]) == rows[i] by {
            assert(rows[i].len() == 0 || rows[i].last() != '\r');
        }
    }
    assert(rows.drop_last().push(rows.last()) =~= rows);
}

proof fn lemma_join_concat(a: Seq<Seq<char>>, b: Seq<Seq<char>>)
    requires
        a.len() >= 1,
        b.len() >= 1,
    ensures
        join_lines(a + b) == join_lines(a).push('\n') + join_lines(b),
    decreases b.len(),
{
    if b.len() == 1 {
        assert((a + b).drop_last() =~= a);
        assert((a + b).last() == b[0]);
    } else {
        let b2 = b.drop_last();
        lemma_join_concat(a, b2);
        assert((a + b).drop_last() =~= a + b2);
        assert((a + b).last() == b.last());
        assert(join_lines(a).push('\n') + join_lines(b2).push('\n') + b.last() =~= join_lines(a).push(
            '\n',
        ) + (join_lines(b2).push('\n') + b.last()));
    }
}

proof fn lemma_append_lines_join(text: Seq<char>, rows: Seq<Seq<char>>)
    requires
        text.len() > 0,
        rows.len() >= 1,
    ensures
        append_lines(text, rows) == text.push('\n') + join_lines(rows),
    decreases rows.len(),
{
    let r2 = rows.drop_last();
    assert(append_lines(text, rows) == append_line(append_lines(text, r2), rows.last()));
    if rows.len() == 1 {
        assert(r2 =~= Seq::<Seq<char>>::empty());
        assert(append_lines(text, r2) == text);
        assert(rows.last() == rows[0]);
        assert(join_lines(rows) == rows[0]);
    } else {
        lemma_append_lines_join(text, r2);
        let j2 = join_lines(r2);
        assert(join_lines(rows) == j2.push('\n') + rows.last());
        assert((text.push('\n') + j2).push('\n') + rows.last() =~= text.push('\n') + (j2.push('\n')
            + rows.last()));
    }
}

proof fn lemma_append_lines_empty(rows: Seq<Seq<char>>)
    requires
        rows.len() >= 1,
        rows[0].len() > 0,
    ensures
        append_lines(Seq::empty(), rows) == join_lines(rows),
    decreases rows.len(),
{
    let r2 = rows.drop_last();
    assert(append_lines(Seq::empty(), rows) == append_line(
        append_lines(Seq::empty(), r2),
        rows.last(),
    ));
    if rows.len() == 1 {
        assert(r2 =~= Seq::<Seq<char>>::empty());
        assert(append_lines(Seq::empty(), r2) == Seq::<char>::empty());
        assert(rows.last() == rows[0]);
        assert(join_lines(rows) == rows[0]);
    } else {
        assert(r2[0] == rows[0]);
        lemma_append_lines_empty(r2);
        lemma_join_nonempty(r2);
        assert(join_lines(rows) == join_lines(r2).push('\n') + rows.last());
    }
}

/// The offset that follows `o`: `height` lower, or 0.
pub open spec fn next_offset(o: int, h: nat) -> int {
    if o >= h {
        o - h
    } else {
        0
    }
}

/// Offset `i` follows offset `i - 1`: the one before is above 0 and this
/// one is `height` lower, or 0.
pub open spec fn offsets_step(o: Seq<usize>, h: nat, i: int) -> bool {
    o[i - 1] > 0 && o[i] == next_offset(o[i - 1] as int, h)
}

/// The shape of the window offsets: they start at `max`, each next one is
/// `height` lower (or 0), and the last is 0.
proof fn lemma_offsets_shape(max: nat, h: nat)
    requires
        h >= 1,
        max <= usize::MAX,
    ensures
        window_offsets_spec(max, h).len() >= 1,
        window_offsets_spec(max, h)[0] == max,
        window_offsets_spec(max, h).last() == 0,
        forall|i: int|
            0 <= i < window_offsets_spec(max, h).len() ==> #[trigger] window_offsets_spec(max, h)[i]
                <= max,
        forall|i: int|
            1 <= i < window_offsets_spec(max, h).len() ==> #[trigger] offsets_step(
                window_offsets_spec(max, h),
                h,
                i,
            ),
    decreases max,
{
    let o = window_offsets_spec(max, h);
    if max == 0 {
        assert(o == seq![0usize]);
    } else {
        let next = next_offset(max as int, h) as nat;
        lemma_offsets_shape(next, h);
        let rest = window_offsets_spec(next, h);
        assert(o == seq![max as usize] + rest);
        assert(o.len() == rest.len() + 1);
        assert(o[0] == max);
        assert(o.last() == rest.last());
        assert forall|i: int| 0 <= i < o.len() implies #[trigger] o[i] <= max by {
            if i >= 1 {
                assert(o[i] == rest[i - 1]);
            }
        }
        assert forall|i: int| 1 <= i < o.len() implies #[trigger] offsets_step(o, h, i) by {
            assert(o[i] == rest[i - 1]);
            if i >= 2 {
                assert(o[i - 1] == rest[i - 2]);
                assert(offsets_step(rest, h, i - 1));
            }
        }
    }
}

/// The windows of `hist` (a history of `max + h` rows) seen at the offsets
/// `offs`, as the emulator shows them: rows joined with newlines.
pub open spec fn windows_of(hist: Seq<Seq<char>>, offs: Seq<usize>, max: nat, h: nat) -> Seq<
    Seq<char>,
> {
    Seq::new(offs.len(), |i: int| join_lines(hist.subrange(max - offs[i], max - offs[i] + h)))
}

proof fn lemma_merge_prefix(hist: Seq<Seq<char>>, max: nat, h: nat, k: int)
    requires
        h >= 1,
        max + h <= usize::MAX,
        hist.len() == max + h,
        plain_rows(hist),
        1 <= k <= window_offsets_spec(max, h).len(),
    ensures
        ({
            let offs = window_offsets_spec(max, h);
            let chunks = windows_of(hist, offs, max, h);
            merge_windows_spec(chunks.take(k), offs.take(k), h) == join_lines(
                hist.take(max - offs[k - 1] + h),
            )
        }),
    decreases k,
{
    let offs = window_offsets_spec(max, h);
    let chunks = windows_of(hist, offs, max, h);
    lemma_offsets_shape(max, h);
    let ck = chunks.take(k);
    let ok = offs.take(k);
    assert(ck.drop_last() =~= chunks.take(k - 1));
    assert(ok.drop_last() =~= offs.take(k - 1));
    assert(ck.last() == chunks[k - 1]);
    let b = offs[k - 1] as int;
    let w = hist.subrange(max - b, max - b + h);
    assert(plain_rows(w)) by {
        assert forall|i: int| 0 <= i < w.len() implies (#[trigger] w[i]).len() > 0 && w[i].last() != '\r'
            && (forall|j: int| 0 <= j < w[i].len() ==> w[i][j] != '\n') by {
            assert(w[i] == hist[max - b + i]);
        }
    }
    lemma_plain_line_rows(w);
    lemma_lines_join(w);
    assert(chunks[k - 1] == join_lines(w));
    let sk = skip_at(ok, k - 1, h);
    assert(merge_windows_spec(ck, ok, h) == append_lines(
        merge_windows_spec(ck.drop_last(), ok.drop_last(), h),
        window_lines(ck.last(), sk),
    ));
    if k == 1 {
        assert(chunks.take(0) =~= Seq::<Seq<char>>::empty());
        assert(offs.take(0) =~= Seq::<usize>::empty());
        assert(merge_windows_spec(chunks.take(0), offs.take(0), h) == Seq::<char>::empty());
        assert(sk == 0);
        assert(lines_of(join_lines(w)).skip(0) =~= w);
        assert(window_lines(ck.last(), sk) == w);
        assert(w[0] == hist[0]);
        lemma_append_lines_empty(w);
        assert(b == max);
        assert(w =~= hist.take(h as int));
    } else {
        lemma_merge_prefix(hist, max, h, k - 1);
        let a = offs[k - 2] as int;
        assert(offsets_step(offs, h, k - 1));
        assert(ok[k - 2] == a && ok[k - 1] == b);
        let d = a - b;
        assert(1 <= d <= h);
        assert(sk == h - d);
        let new_rows = w.skip(h - d);
        assert(window_lines(ck.last(), sk) == new_rows);
        assert(new_rows =~= hist.subrange(max - a + h, max - b + h));
        let prev = hist.take(max - a + h);
        assert(merge_windows_spec(ck.drop_last(), ok.drop_last(), h) == join_lines(prev));
        assert(prev[0] == hist[0]);
        lemma_join_nonempty(prev);
        lemma_append_lines_join(join_lines(prev), new_rows);
        lemma_join_concat(prev, new_rows);
        assert(prev + new_rows =~= hist.take(max - b + h));
    }
}

/// Walking the history window by window reassembles it: when each window
/// shows `height` rows of a history of `max + height` rows (the scrollback
/// and the screen) at the offsets of `window_offsets`, the merged text is
/// the whole history, each row once, in order. Rows that are empty, end in
/// a carriage return or hold a line break are left out: the emulator's
/// text of a window drops its trailing empty rows, and a line break inside
/// a row would be read as two rows.
pub proof fn law_windows_reassemble_history(hist: Seq<Seq<char>>, max: nat, height: nat)
    requires
        height >= 1,
        max + height <= usize::MAX,
        hist.len() == max + height,
        plain_rows(hist),
    ensures
        merge_windows_spec(
            windows_of(hist, window_offsets_spec(max, height), max, height),
            window_offsets_spec(max, height),
            height,
        ) == join_lines(hist),
        lines_of(join_lines(hist)) == hist,
{
    let offs = window_offsets_spec(max, height);
    let chunks = windows_of(hist, offs, max, height);
    lemma_offsets_shape(max, height);
    lemma_merge_prefix(hist, max, height, offs.len() as int);
    assert(chunks.take(offs.len() as int) =~= chunks);
    assert(offs.take(offs.len() as int) =~= offs);
    assert(hist.take((max + height) as int) =~= hist);
    lemma_plain_line_rows(hist);
    lemma_lines_join(hist);
}

proof fn lemma_split_pieces(s: Seq<char>, sep: char)
    ensures
        forall|i: int, j: int|
            0 <= i < split_on(s, sep).len() && 0 <= j < split_on(s, sep)[i].len() ==> #[trigger] split_on(
                s,
                sep,
            )[i][j] != sep,
    decreases s.len(),
{
    if s.len() > 0 {
        let s2 = s.drop_last();
        lemma_split_pieces(s2, sep);
        crate::config::lemma_split_on_nonempty(s2, sep);
        let p = split_on(s2, sep);
        let q = split_on(s, sep);
        assert forall|i: int, j: int| 0 <= i < q.len() && 0 <= j < q[i].len() implies #[trigger] q[i][j]
            != sep by {
            if s.last() == sep {
                if i < p.len() {
                    assert(q[i] == p[i]);
                }
            } else {
                if i < p.len() - 1 {
                    assert(q[i] == p[i]);
                } else {
                    assert(q[i] == p.last().push(s.last()));
                    if j < p.last().len() {
                        assert(p.last() == p[p.len() - 1]);
                        assert(q[i][j] == p[p.len() - 1][j]);
                    }
                }
            }
        }
    }
}

proof fn lemma_lines_pieces(s: Seq<char>)
    ensures
        no_breaks(lines_of(s)),
{
    let p = split_on(s, '\n');
    lemma_split_pieces(s, '\n');
    lemma_split_nonempty(s);
    let l = lines_of(s);
    assert forall|i: int, j: int| 0 <= i < l.len() && 0 <= j < l[i].len() implies #[trigger] l[i][j] != '\n' by {
        if i < p.len() - 1 {
            assert(l[i] == strip_cr(p[i]));
            assert(l[i][j] == p[i][j]);
        } else {
            assert(l[i] == p.last());
            assert(p.last() == p[p.len() - 1]);
            assert(l[i][j] == p[p.len() - 1][j]);
        }
    }
}

/// `trim_end(x)` is a prefix of `x` that is empty or ends in a
/// non-whitespace character.
proof fn lemma_trim_end_shape(x: Seq<char>)
    ensures
        trim_end(x).len() <= x.len(),
        trim_end(x) == x.take(trim_end(x).len() as int),
        trim_end(x).len() == 0 || !is_ws(trim_end(x).last()),
        trim_end(trim_end(x)) == trim_end(x),
    decreases x.len(),
{
    if x.len() > 0 && is_ws(x.last()) {
        lemma_trim_end_shape(x.drop_last());
        let t = trim_end(x.drop_last());
        assert(x.drop_last().take(t.len() as int) =~= x.take(t.len() as int));
    } else {
        assert(x.take(x.len() as int) =~= x);
    }
}

/// `drop_blank_tail(rows)` is a prefix of `rows` whose last row, if any,
/// is not blank.
proof fn lemma_drop_blank_tail(rows: Seq<Seq<char>>)
    ensures
        drop_blank_tail(rows).len() <= rows.len(),
        drop_blank_tail(rows) == rows.take(drop_blank_tail(rows).len() as int),
        drop_blank_tail(rows).len() > 0 ==> trim(drop_blank_tail(rows).last()).len() > 0,
    decreases rows.len(),
{
    if rows.len() > 0 && trim(rows.last()).len() == 0 {
        lemma_drop_blank_tail(rows.drop_last());
        let d = drop_blank_tail(rows.drop_last());
        assert(rows.drop_last().take(d.len() as int) =~= rows.take(d.len() as int));
    } else {
        assert(rows.take(rows.len() as int) =~= rows);
    }
}

/// The rows of a capture of `text`: its lines without the blank rows at
/// the end, each without trailing whitespace.
pub open spec fn capture_rows(text: Seq<char>) -> Seq<Seq<char>> {
    drop_blank_tail(lines_of(text)).map_values(|l: Seq<char>| trim_end(l))
}

/// A capture's rows carry no trailing whitespace, the last is not blank,
/// and joined with newlines they are split back into the same rows by
/// `str::lines`; a capture limited to `n` lines is the last `n` rows of
/// the whole capture, and one limited to 0 lines is empty.
pub proof fn law_capture_last_lines(text: Seq<char>, n: usize)
    ensures
        ({
            let rows = capture_rows(text);
            &&& finish_capture_spec(text, None) == join_lines(rows)
            &&& lines_of(finish_capture_spec(text, None)) == rows
            &&& finish_capture_spec(text, Some(n)) == join_lines(
                rows.skip(
                    if rows.len() > n {
                        rows.len() - n
                    } else {
                        0
                    },
                ),
            )
            &&& forall|i: int| 0 <= i < rows.len() ==> trim_end(#[trigger] rows[i]) == rows[i]
            &&& rows.len() > 0 ==> trim(rows.last()).len() > 0
            &&& finish_capture_spec(text, Some(0)).len() == 0
        }),
{
    let ls = lines_of(text);
    let kept = drop_blank_tail(ls);
    let rows = capture_rows(text);
    lemma_lines_pieces(text);
    lemma_drop_blank_tail(ls);
    assert(kept.skip(0).map_values(|l: Seq<char>| trim_end(l)) =~= rows);
    let k: int = if rows.len() > n {
        rows.len() - n
    } else {
        0
    };
    assert(kept.skip(k).map_values(|l: Seq<char>| trim_end(l)) =~= rows.skip(k));
    let k0: int = if rows.len() > 0 {
        rows.len() as int
    } else {
        0
    };
    assert(kept.skip(k0).map_values(|l: Seq<char>| trim_end(l)) =~= Seq::<Seq<char>>::empty());
    assert forall|i: int| 0 <= i < rows.len() implies trim_end(#[trigger] rows[i]) == rows[i] by {
        lemma_trim_end_shape(kept[i]);
    }
    if rows.len() > 0 {
        let last = kept.last();
        lemma_trim_end_shape(last);
        assert(rows.last() == trim_end(last));
        assert(trim(rows.last()) == trim(last));
        assert(rows.last().len() > 0);
        assert(line_rows(rows)) by {
            assert forall|i: int, j: int| 0 <= i < rows.len() && 0 <= j < rows[i].len() implies #[trigger] rows[i][j]
                != '\n' by {
                lemma_trim_end_shape(kept[i]);
                assert(kept[i] == ls[i]);
                assert(rows[i][j] == kept[i][j]);
                assert(ls[i][j] != '\n');
            }
            assert forall|i: int| 0 <= i < rows.len() implies (#[trigger] rows[i]).len() == 0 || rows[i].last()
                != '\r' by {
                lemma_trim_end_shape(kept[i]);
                assert(is_ws('\r'));
            }
        }
        lemma_lines_join(rows);
    } else {
        assert(join_lines(rows) == Seq::<char>::empty());
        assert(split_on(Seq::<char>::empty(), '\n') == seq![Seq::<char>::empty()]);
        assert(lines_of(Seq::<char>::empty()) =~= Seq::<Seq<char>>::empty());
    }
}

/// What a terminal is given after it is made, in order.
pub enum TermInput {
    /// Output of the child process to interpret.
    Output(Seq<u8>),
    /// A new size (rows, cols).
    Resize(u16, u16),
    /// A request to show the window that many lines back in the history.
    View(usize),
}

/// `v`, or 1 when it is 0.
pub open spec fn at_least_one(v: u16) -> u16 {
    if v >= 1 {
        v
    } else {
        1
    }
}

/// The size (rows, cols) after the inputs: the last size given, else the
/// size the terminal was made with.
pub open spec fn size_after(size0: (u16, u16), inputs: Seq<TermInput>) -> (u16, u16)
    decreases inputs.len(),
{
    if inputs.len() == 0 {
        size0
    } else {
        match inputs.last() {
            TermInput::Resize(r, c) => (r, c),
            _ => size_after(size0, inputs.drop_last()),
        }
    }
}

/// The inputs other than view changes, in order: what the screen and the
/// history are made of.
pub open spec fn without_views(inputs: Seq<TermInput>) -> Seq<TermInput>
    decreases inputs.len(),
{
    if inputs.len() == 0 {
        Seq::empty()
    } else {
        match inputs.last() {
            TermInput::View(_) => without_views(inputs.drop_last()),
            _ => without_views(inputs.drop_last()).push(inputs.last()),
        }
    }
}

/// A view change to each offset, in order.
pub open spec fn views(offs: Seq<usize>) -> Seq<TermInput> {
    offs.map_values(|o: usize| TermInput::View(o))
}

proof fn lemma_views_keep(inputs: Seq<TermInput>, offs: Seq<usize>, size0: (u16, u16))
    ensures
        size_after(size0, inputs + views(offs)) == size_after(size0, inputs),
        without_views(inputs + views(offs)) == without_views(inputs),
    decreases offs.len(),
{
    if offs.len() == 0 {
        assert(inputs + views(offs) =~= inputs);
    } else {
        let o2 = offs.drop_last();
        lemma_views_keep(inputs, o2, size0);
        let all = inputs + views(offs);
        assert(all.drop_last() =~= inputs + views(o2));
        assert(all.last() == TermInput::View(offs.last()));
    }
}

/// The inputs without the view changes at their end.
pub open spec fn drop_trailing_views(inputs: Seq<TermInput>) -> Seq<TermInput>
    decreases inputs.len(),
{
    if inputs.len() > 0 && inputs.last() is View {
        drop_trailing_views(inputs.drop_last())
    } else {
        inputs
    }
}

proof fn lemma_drop_trailing_views(inputs: Seq<TermInput>, offs: Seq<usize>)
    ensures
        drop_trailing_views(inputs + views(offs)) == drop_trailing_views(inputs),
    decreases offs.len(),
{
    if offs.len() == 0 {
        assert(inputs + views(offs) =~= inputs);
    } else {
        let o2 = offs.drop_last();
        lemma_drop_trailing_views(inputs, o2);
        let all = inputs + views(offs);
        assert(all.drop_last() =~= inputs + views(o2));
        assert(all.last() == TermInput::View(offs.last()));
    }
}

/// The text of the pane that `capture` merges, for a terminal made with
/// `size0` and `limit` after `inputs`: with `base` the inputs without their
/// trailing view changes, the view moves to the oldest line (offset
/// `max`), and the windows at the offsets `window_offsets(max, rows)` are
/// merged.
pub open spec fn capture_merged(size0: (u16, u16), limit: usize, inputs: Seq<TermInput>) -> Seq<char> {
    let base = drop_trailing_views(inputs);
    let h = size_after(size0, inputs).0;
    let max = vt_offset(size0, limit, base.push(TermInput::View(usize::MAX)));
    let offs = window_offsets_spec(max as nat, h as nat);
    let chunks = Seq::new(
        offs.len(),
        |i: int| vt_text(size0, limit, base.push(TermInput::View(offs[i]))),
    );
    merge_windows_spec(chunks, offs, h as nat)
}

/// A capture does not change what a later capture sees: view changes
/// added to the inputs leave the merged text as it was, so a second
/// capture of the same terminal returns the same rows, and a capture
/// limited to `n` lines is the last `n` rows of an earlier full capture.
pub proof fn law_capture_repeatable(
    size0: (u16, u16),
    limit: usize,
    inputs: Seq<TermInput>,
    more: Seq<usize>,
    n: usize,
)
    ensures
        capture_merged(size0, limit, inputs + views(more)) == capture_merged(size0, limit, inputs),
        ({
            let text = capture_merged(size0, limit, inputs);
            let rows = lines_of(finish_capture_spec(text, None));
            finish_capture_spec(capture_merged(size0, limit, inputs + views(more)), Some(n))
                == join_lines(
                rows.skip(
                    if rows.len() > n {
                        rows.len() - n
                    } else {
                        0
                    },
                ),
            )
        }),
{
    lemma_drop_trailing_views(inputs, more);
    lemma_views_keep(inputs, more, size0);
    law_capture_last_lines(capture_merged(size0, limit, inputs), n);
}

/// A pane's terminal emulator. Its screen and history are what `vt100`
/// makes of the size it was made with, its scrollback limit and the inputs
/// it was given since, in order.
pub struct Term {
    parser: VtParser,
    scrollback_limit: usize,
    size0: Ghost<(u16, u16)>,
    inputs: Ghost<Seq<TermInput>>,
}

impl Term {
    /// The scrollback limit the terminal was made with.
    pub closed spec fn scrollback_limit_spec(&self) -> usize {
        self.scrollback_limit
    }

    /// The size (rows, cols) the terminal was made with.
    pub closed spec fn initial_size_spec(&self) -> (u16, u16) {
        self.size0@
    }

    /// The inputs given to the terminal since it was made, in order.
    pub closed spec fn inputs_spec(&self) -> Seq<TermInput> {
        self.inputs@
    }

    /// The terminal's current size (rows, cols).
    pub open spec fn size_spec(&self) -> (u16, u16) {
        size_after(self.initial_size_spec(), self.inputs_spec())
    }

    /// The text of the window shown now.
    pub open spec fn text_spec(&self) -> Seq<char> {
        vt_text(self.initial_size_spec(), self.scrollback_limit_spec(), self.inputs_spec())
    }

    /// How many lines back in the history the window shown starts.
    pub open spec fn offset_spec(&self) -> usize {
        vt_offset(self.initial_size_spec(), self.scrollback_limit_spec(), self.inputs_spec())
    }

    /// A terminal of `rows` x `cols` (each at least 1) keeping
    /// `scrollback_limit` lines of history.
    pub fn new(rows: u16, cols: u16, scrollback_limit: usize) -> (t: Term)
        ensures
            t.scrollback_limit_spec() == scrollback_limit,
            t.initial_size_spec() == (at_least_one(rows), at_least_one(cols)),
            t.inputs_spec() == Seq::<TermInput>::empty(),
    {
        let r = if rows >= 1 { rows } else { 1 };
        let c = if cols >= 1 { cols } else { 1 };
        vt_new(r, c, scrollback_limit)
    }

    /// Feeds raw PTY output into the emulator.
    pub fn feed(&mut self, bytes: &[u8])
        ensures
            final(self).scrollback_limit_spec() == old(self).scrollback_limit_spec(),
            final(self).initial_size_spec() == old(self).initial_size_spec(),
            final(self).inputs_spec() == old(self).inputs_spec().push(TermInput::Output(bytes@)),
            final(self).size_spec() == old(self).size_spec(),
    {
        vt_process(self, bytes);
        assert(self.inputs_spec().drop_last() =~= old(self).inputs_spec());
    }

    /// Resizes the terminal (each size at least 1).
    pub fn resize(&mut self, rows: u16, cols: u16)
        ensures
            final(self).scrollback_limit_spec() == old(self).scrollback_limit_spec(),
            final(self).initial_size_spec() == old(self).initial_size_spec(),
            final(self).inputs_spec() == old(self).inputs_spec().push(
                TermInput::Resize(at_least_one(rows), at_least_one(cols)),
            ),
            final(self).size_spec() == (at_least_one(rows), at_least_one(cols)),
    {
        let r = if rows >= 1 { rows } else { 1 };
        let c = if cols >= 1 { cols } else { 1 };
        vt_set_size(self, r, c);
    }

    /// Shows the window that starts `offset` lines back in the history (the
    /// live screen for 0); the emulator clamps the offset to the history.
    pub fn set_view(&mut self, offset: usize)
        ensures
            final(self).scrollback_limit_spec() == old(self).scrollback_limit_spec(),
            final(self).initial_size_spec() == old(self).initial_size_spec(),
            final(self).inputs_spec() == old(self).inputs_spec().push(TermInput::View(offset)),
            final(self).offset_spec() <= offset,
            final(self).size_spec() == old(self).size_spec(),
    {
        vt_set_scrollback(self, offset);
        assert(self.inputs_spec().drop_last() =~= old(self).inputs_spec());
    }

    /// The text of the window shown now, rows separated by newlines.
    pub fn view_text(&self) -> (r: String)
        ensures
            r@ == self.text_spec(),
    {
        vt_contents(self)
    }

    /// The scrollback limit the terminal was made with.
    pub fn scrollback_limit(&self) -> (r: usize)
        ensures
            r == self.scrollback_limit_spec(),
    {
        self.scrollback_limit
    }

    /// The emulator the terminal holds.
    pub closed spec fn parser_spec(&self) -> VtParser {
        self.parser
    }

    /// The emulator, for reading its screen (cells, cursor, modes).
    pub fn parser(&self) -> (r: &VtParser)
        ensures
            *r == self.parser_spec(),
    {
        &self.parser
    }

    /// Full text of the pane: scrollback followed by the current screen,
    /// with trailing blank lines removed; only the last `n` lines when
    /// `lines` is `Some(n)`.
    ///
    /// The emulator shows one screen-height window at a time, so this moves
    /// the view to the oldest window and then, at the offsets of
    /// `window_offsets`, to each window up to the live one, dropping the
    /// lines each window shares with the previous one (`merge_windows`),
    /// and returns to the live view. Only view changes are added to the
    /// inputs.
    pub fn capture(&mut self, lines: Option<usize>) -> (r: String)
        ensures
            r@ == finish_capture_spec(
                capture_merged(
                    old(self).initial_size_spec(),
                    old(self).scrollback_limit_spec(),
                    old(self).inputs_spec(),
                ),
                lines,
            ),
            ({
                let s0 = old(self).initial_size_spec();
                let lim = old(self).scrollback_limit_spec();
                let base = drop_trailing_views(old(self).inputs_spec());
                let max = vt_offset(s0, lim, base.push(TermInput::View(usize::MAX)));
                let offs = window_offsets_spec(max as nat, old(self).size_spec().0 as nat);
                final(self).inputs_spec() == old(self).inputs_spec() + views(
                    seq![usize::MAX] + offs + seq![0usize],
                )
            }),
            final(self).scrollback_limit_spec() == old(self).scrollback_limit_spec(),
            final(self).initial_size_spec() == old(self).initial_size_spec(),
            final(self).size_spec() == old(self).size_spec(),
            without_views(final(self).inputs_spec()) == without_views(old(self).inputs_spec()),
            final(self).offset_spec() == 0,
    {
        let ghost s0 = self.initial_size_spec();
        let ghost lim = self.scrollback_limit_spec();
        let ghost in0 = self.inputs_spec();
        let ghost base = drop_trailing_views(in0);
        let height = vt_rows(self) as usize;
        vt_set_scrollback(self, usize::MAX);
        let ghost start = self.inputs_spec();
        let max = vt_scrollback(self);
        let offs = window_offsets(max, height);
        let ghost cw = Seq::new(
            offs@.len(),
            |k: int| vt_text(s0, lim, base.push(TermInput::View(offs@[k]))),
        );
        proof {
            lemma_drop_trailing_views(in0, seq![usize::MAX]);
            assert(in0 + views(seq![usize::MAX]) =~= start);
        }
        let mut chunks: Vec<String> = Vec::new();
        let mut i: usize = 0;
        assert(offs@.take(0) =~= Seq::<usize>::empty());
        assert(start + views(offs@.take(0)) =~= start);
        while i < offs.len()
            invariant
                i <= offs.len(),
                self.initial_size_spec() == s0,
                self.scrollback_limit_spec() == lim,
                self.inputs_spec() == start + views(offs@.take(i as int)),
                drop_trailing_views(start) == base,
                cw == Seq::new(
                    offs@.len(),
                    |k: int| vt_text(s0, lim, base.push(TermInput::View(offs@[k]))),
                ),
                chunks@.map_values(|c: String| c@) == cw.take(i as int),
            decreases offs.len() - i,
        {
            proof {
                lemma_drop_trailing_views(start, offs@.take(i as int));
            }
            vt_set_scrollback(self, offs[i]);
            proof {
                assert(offs@.take(i + 1) =~= offs@.take(i as int).push(offs@[i as int]));
                assert(views(offs@.take(i + 1)) =~= views(offs@.take(i as int)).push(
                    TermInput::View(offs@[i as int]),
                ));
                assert(self.inputs_spec() =~= start + views(offs@.take(i + 1)));
            }
            let c = vt_contents(self);
            let ghost old_chunks = chunks@;
            chunks.push(c);
            proof {
                assert(cw[i as int] == c@);
                assert(chunks@.map_values(|c: String| c@) =~= old_chunks.map_values(|c: String| c@).push(
                    c@,
                ));
                assert(cw.take(i + 1) =~= cw.take(i as int).push(cw[i as int]));
            }
            i = i + 1;
        }
        assert(offs@.take(offs.len() as int) =~= offs@);
        assert(cw.take(offs.len() as int) =~= cw);
        let ghost walked = self.inputs_spec();
        vt_set_scrollback(self, 0);
        let text = merge_windows(&chunks, &offs, height);
        let r = finish_capture(text.as_slice(), lines);
        proof {
            lemma_views_keep(in0, seq![usize::MAX], s0);
            lemma_views_keep(start, offs@, s0);
            lemma_views_keep(walked, seq![0usize], s0);
            assert(walked + views(seq![0usize]) =~= self.inputs_spec());
            assert(self.inputs_spec() =~= in0 + views(seq![usize::MAX] + offs@ + seq![0usize]));
        }
        r
    }
}

} // verus!
