//! Rendering a line diff as annotated text.
//!
//! Given a buffer's text, the deleted lines hanging above some rows and
//! the rows that were inserted, `format_diff` renders the classic diff
//! picture: deleted lines prefixed with `-`, inserted rows with `+ `,
//! unchanged rows with two spaces, every rendered row trimmed of trailing
//! whitespace.

use vstd::prelude::*;

verus! {

/// The whitespace trimmed from row ends: the Unicode white-space
/// characters, the set a standard end-trim removes.
pub open spec fn spec_is_ws(c: char) -> bool {
    let u = c as u32;
    ||| u == 0x09
    ||| u == 0x0A
    ||| u == 0x0B
    ||| u == 0x0C
    ||| u == 0x0D
    ||| u == 0x20
    ||| u == 0x85
    ||| u == 0xA0
    ||| u == 0x1680
    ||| (0x2000 <= u && u <= 0x200A)
    ||| u == 0x2028
    ||| u == 0x2029
    ||| u == 0x202F
    ||| u == 0x205F
    ||| u == 0x3000
}

/// `s` without its trailing whitespace.
pub open spec fn spec_trim_end(s: Seq<char>) -> Seq<char>
    decreases s.len(),
{
    if s.len() == 0 {
        s
    } else if spec_is_ws(s.last()) {
        spec_trim_end(s.drop_last())
    } else {
        s
    }
}

/// `s` split at every newline: one more piece than there are newlines,
/// so text ending in a newline has an empty final piece.
pub open spec fn spec_split_lines(s: Seq<char>) -> Seq<Seq<char>>
    decreases s.len(),
{
    if s.len() == 0 {
        seq![Seq::<char>::empty()]
    } else if s.last() == '\n' {
        spec_split_lines(s.drop_last()).push(Seq::<char>::empty())
    } else {
        let r = spec_split_lines(s.drop_last());
        r.update(r.len() - 1, r.last().push(s.last()))
    }
}

/// Splitting yields one piece per newline plus one, never none.
pub proof fn lemma_split_lines_count(s: Seq<char>)
    ensures
        1 <= spec_split_lines(s).len() <= s.len() + 1,
    decreases s.len(),
{
    if s.len() == 0 {
    } else {
        lemma_split_lines_count(s.drop_last());
    }
}

/// `l` without one trailing carriage return: a line that ended in a
/// carriage return followed by the newline it was split at loses the
/// carriage return.
pub open spec fn spec_strip_cr(l: Seq<char>) -> Seq<char> {
    if l.len() > 0 && l.last() == '\r' {
        l.drop_last()
    } else {
        l
    }
}

/// The lines of `s`, as a line iterator hands them out: split at
/// newlines; every newline-terminated piece loses one trailing carriage
/// return (a carriage-return-and-newline ending); the final piece was not
/// terminated, so it keeps a bare carriage return, and it is dropped when
/// empty.
pub open spec fn spec_lines(s: Seq<char>) -> Seq<Seq<char>> {
    let pieces = spec_split_lines(s);
    let terminated = pieces.take(pieces.len() - 1).map_values(
        |l: Seq<char>| spec_strip_cr(l),
    );
    if pieces.last() == Seq::<char>::empty() {
        terminated
    } else {
        terminated.push(pieces.last())
    }
}

/// The first deleted text recorded against `row`, if any.
pub open spec fn spec_first_deletion(dels: Seq<(u32, String)>, row: u32) -> Option<String>
    decreases dels.len(),
{
    if dels.len() == 0 {
        None
    } else if dels.first().0 == row {
        Some(dels.first().1)
    } else {
        spec_first_deletion(dels.drop_first(), row)
    }
}

/// Whether any inserted row range contains `row`.
pub open spec fn spec_any_insertion_contains(ins: Seq<core::ops::Range<u32>>, row: u32) -> bool
    decreases ins.len(),
{
    if ins.len() == 0 {
        false
    } else {
        (ins.first().start <= row && row < ins.first().end) || spec_any_insertion_contains(
            ins.drop_first(),
            row,
        )
    }
}

/// How a block of deleted lines renders: each line prefixed with `-`,
/// non-empty lines separated from it by one space, each on its own row.
pub open spec fn spec_deletion_lines_text(lines: Seq<Seq<char>>) -> Seq<char>
    decreases lines.len(),
{
    if lines.len() == 0 {
        Seq::empty()
    } else {
        seq!['-'] + (if lines.first().len() > 0 {
            seq![' '] + lines.first()
        } else {
            Seq::<char>::empty()
        }) + seq!['\n'] + spec_deletion_lines_text(lines.drop_first())
    }
}

/// The deleted-lines block hanging above `row`, empty when nothing was
/// deleted there.
pub open spec fn spec_deletion_block(dels: Seq<(u32, String)>, row: u32) -> Seq<char> {
    match spec_first_deletion(dels, row) {
        None => Seq::empty(),
        Some(t) => spec_deletion_lines_text(spec_lines(t@)),
    }
}

/// The marker a rendered row starts with: `+ ` on inserted rows, two
/// spaces elsewhere.
pub open spec fn spec_marker(ins: Seq<core::ops::Range<u32>>, row: u32) -> Seq<char> {
    if spec_any_insertion_contains(ins, row) {
        seq!['+', ' ']
    } else {
        seq![' ', ' ']
    }
}

/// One rendered row: its deletion block, then the marked line trimmed of
/// trailing whitespace.
pub open spec fn spec_row_text(
    line: Seq<char>,
    row: u32,
    dels: Seq<(u32, String)>,
    ins: Seq<core::ops::Range<u32>>,
) -> Seq<char> {
    spec_deletion_block(dels, row) + spec_trim_end(spec_marker(ins, row) + line)
}

/// The rendered rows from `row` on, newline-separated from what came
/// before (every row but the very first is preceded by a newline).
pub open spec fn spec_diff_rows(
    lines: Seq<Seq<char>>,
    row: int,
    dels: Seq<(u32, String)>,
    ins: Seq<core::ops::Range<u32>>,
) -> Seq<char>
    decreases lines.len(),
{
    if lines.len() == 0 {
        Seq::empty()
    } else {
        (if row > 0 {
            seq!['\n']
        } else {
            Seq::<char>::empty()
        }) + spec_row_text(lines.first(), row as u32, dels, ins) + spec_diff_rows(
            lines.drop_first(),
            row + 1,
            dels,
            ins,
        )
    }
}

/// The whole rendered diff of `text`.
pub open spec fn spec_format_diff(
    text: Seq<char>,
    dels: Seq<(u32, String)>,
    ins: Seq<core::ops::Range<u32>>,
) -> Seq<char> {
    spec_diff_rows(spec_split_lines(text), 0, dels, ins)
}

/// Whether `c` is trimmed from row ends.
fn char_is_ws(c: char) -> (r: bool)
    ensures
        r == spec_is_ws(c),
{
    let u = c as u32;
    u == 0x09 || u == 0x0A || u == 0x0B || u == 0x0C || u == 0x0D || u == 0x20 || u == 0x85 || u
        == 0xA0 || u == 0x1680 || (0x2000 <= u && u <= 0x200A) || u == 0x2028 || u == 0x2029 || u
        == 0x202F || u == 0x205F || u == 0x3000
}

/// The length of `s` once trailing whitespace is dropped.
fn trimmed_len(s: &str) -> (n: usize)
    ensures
        n <= s@.len(),
        s@.take(n as int) == spec_trim_end(s@),
{
    let mut n: usize = s.unicode_len();
    let mut done = false;
    proof {
        assert(s@.take(n as int) =~= s@);
    }
    while n > 0 && !done
        invariant
            n <= s@.len(),
            spec_trim_end(s@) == spec_trim_end(s@.take(n as int)),
            done ==> n > 0 && !spec_is_ws(s@[n as int - 1]),
        decreases n, (if done {
            0int
        } else {
            1int
        }),
    {
        let c = s.get_char(n - 1);
        if char_is_ws(c) {
            proof {
                let t = s@.take(n as int);
                assert(t.last() == s@[n as int - 1]);
                assert(t.drop_last() =~= s@.take(n as int - 1));
            }
            n -= 1;
        } else {
            done = true;
        }
    }
    proof {
        let t = s@.take(n as int);
        if n == 0 {
            assert(t =~= Seq::<char>::empty());
            assert(spec_trim_end(t) =~= t);
        } else {
            assert(t.last() == s@[n as int - 1]);
            assert(spec_trim_end(t) == t);
        }
    }
    n
}

/// `s` split at every newline.
fn split_newlines(s: &str) -> (lines: Vec<String>)
    ensures
        lines@.len() == spec_split_lines(s@).len(),
        forall|j: int| 0 <= j < lines@.len() ==> (#[trigger] lines@[j])@ == spec_split_lines(s@)[j],
{
    let n = s.unicode_len();
    let mut lines: Vec<String> = Vec::new();
    let mut line_start: usize = 0;
    let mut i: usize = 0;
    proof {
        assert(s@.take(0) =~= Seq::<char>::empty());
    }
    while i < n
        invariant
            line_start <= i <= n == s@.len(),
            spec_split_lines(s@.take(i as int)).len() == lines@.len() + 1,
            forall|j: int|
                0 <= j < lines@.len() ==> (#[trigger] lines@[j])@ == spec_split_lines(
                    s@.take(i as int),
                )[j],
            spec_split_lines(s@.take(i as int)).last() == s@.subrange(
                line_start as int,
                i as int,
            ),
        decreases n - i,
    {
        let ghost prev = spec_split_lines(s@.take(i as int));
        let c = s.get_char(i);
        proof {
            let t = s@.take(i as int + 1);
            assert(t.last() == s@[i as int]);
            assert(t.drop_last() =~= s@.take(i as int));
            lemma_split_lines_count(s@.take(i as int));
        }
        if c == '\n' {
            let piece = s.substring_char(line_start, i).to_owned();
            assert(piece@ == prev.last());
            lines.push(piece);
            line_start = i + 1;
            proof {
                assert(spec_split_lines(s@.take(i as int + 1)) == prev.push(
                    Seq::<char>::empty(),
                ));
                assert(s@.subrange(line_start as int, i as int + 1) =~= Seq::<char>::empty());
            }
        } else {
            proof {
                let cur = spec_split_lines(s@.take(i as int + 1));
                assert(cur == prev.update(prev.len() - 1, prev.last().push(s@[i as int])));
                assert(s@.subrange(line_start as int, i as int + 1) =~= s@.subrange(
                    line_start as int,
                    i as int,
                ).push(s@[i as int]));
                assert(forall|j: int| 0 <= j < prev.len() - 1 ==> cur[j] == prev[j]);
            }
        }
        i += 1;
    }
    let piece = s.substring_char(line_start, n).to_owned();
    proof {
        assert(s@.take(n as int) =~= s@);
        lemma_split_lines_count(s@);
    }
    lines.push(piece);
    lines
}

/// The lines of `s`, as a line iterator would hand them out.
fn split_str_lines(s: &str) -> (out: Vec<String>)
    ensures
        out@.len() == spec_lines(s@).len(),
        forall|j: int| 0 <= j < out@.len() ==> (#[trigger] out@[j])@ == spec_lines(s@)[j],
{
    let pieces = split_newlines(s);
    proof {
        lemma_split_lines_count(s@);
    }
    let n = pieces.len();
    let ghost ps = spec_split_lines(s@);
    let mut out: Vec<String> = Vec::new();
    let mut i: usize = 0;
    while i < n - 1
        invariant
            ps == spec_split_lines(s@),
            1 <= n == pieces@.len() == ps.len(),
            i <= n - 1,
            forall|j: int| 0 <= j < pieces@.len() ==> (#[trigger] pieces@[j])@ == ps[j],
            out@.len() == i,
            forall|j: int| 0 <= j < i ==> (#[trigger] out@[j])@ == spec_strip_cr(ps[j]),
        decreases n - 1 - i,
    {
        let line = &pieces[i];
        let ln = line.as_str().unicode_len();
        if ln > 0 && line.as_str().get_char(ln - 1) == '\r' {
            let stripped = line.as_str().substring_char(0, ln - 1).to_owned();
            proof {
                assert(stripped@ =~= ps[i as int].drop_last());
            }
            out.push(stripped);
        } else {
            out.push(line.clone());
        }
        i += 1;
    }
    let last = &pieces[n - 1];
    proof {
        assert(last@ == ps.last());
        if ps.last().len() == 0 {
            assert(ps.last() =~= Seq::<char>::empty());
        }
    }
    if !last.as_str().is_empty() {
        out.push(last.clone());
    }
    proof {
        assert(forall|j: int|
            0 <= j < ps.len() - 1 ==> spec_strip_cr(ps.take(ps.len() - 1)[j]) == spec_strip_cr(
                #[trigger] ps[j],
            ));
    }
    out
}

/// The first deleted text recorded against `row`, if any.
fn find_deletion(dels: &Vec<(u32, String)>, row: u32) -> (r: Option<String>)
    ensures
        r == spec_first_deletion(dels@, row),
{
    let mut i: usize = 0;
    proof {
        assert(dels@.skip(0) =~= dels@);
    }
    while i < dels.len()
        invariant
            i <= dels@.len(),
            spec_first_deletion(dels@, row) == spec_first_deletion(dels@.skip(i as int), row),
        decreases dels@.len() - i,
    {
        let ghost rem = dels@.skip(i as int);
        proof {
            assert(rem.first() == dels@[i as int]);
            assert(rem.drop_first() =~= dels@.skip(i as int + 1));
        }
        let d = &dels[i];
        if d.0 == row {
            return Some(d.1.clone());
        }
        i += 1;
    }
    proof {
        assert(dels@.skip(dels@.len() as int) =~= Seq::<(u32, String)>::empty());
    }
    None
}

/// Whether any inserted row range contains `row`.
fn insertion_contains(ins: &Vec<core::ops::Range<u32>>, row: u32) -> (r: bool)
    ensures
        r == spec_any_insertion_contains(ins@, row),
{
    let mut i: usize = 0;
    proof {
        assert(ins@.skip(0) =~= ins@);
    }
    while i < ins.len()
        invariant
            i <= ins@.len(),
            spec_any_insertion_contains(ins@, row) == spec_any_insertion_contains(
                ins@.skip(i as int),
                row,
            ),
        decreases ins@.len() - i,
    {
        let ghost rem = ins@.skip(i as int);
        proof {
            assert(rem.first() == ins@[i as int]);
            assert(rem.drop_first() =~= ins@.skip(i as int + 1));
        }
        let candidate = &ins[i];
        if candidate.start <= row && row < candidate.end {
            return true;
        }
        i += 1;
    }
    proof {
        assert(ins@.skip(ins@.len() as int) =~= Seq::<core::ops::Range<u32>>::empty());
    }
    false
}

/// Append the rendering of one block of deleted lines.
fn append_deletion_block(diff: &mut String, deleted: &String)
    ensures
        final(diff)@ == old(diff)@ + spec_deletion_lines_text(spec_lines(deleted@)),
{
    let ghost target = spec_lines(deleted@);
    let lines = split_str_lines(deleted.as_str());
    let ghost mut built = Seq::<char>::empty();
    let mut i: usize = 0;
    proof {
        assert(target.skip(0) =~= target);
        assert(diff@ =~= old(diff)@ + built);
    }
    while i < lines.len()
        invariant
            i <= lines@.len(),
            lines@.len() == target.len(),
            forall|j: int| 0 <= j < lines@.len() ==> (#[trigger] lines@[j])@ == target[j],
            diff@ == old(diff)@ + built,
            spec_deletion_lines_text(target) == built + spec_deletion_lines_text(
                target.skip(i as int),
            ),
        decreases lines@.len() - i,
    {
        let ghost rem = target.skip(i as int);
        let ghost piece = seq!['-'] + (if target[i as int].len() > 0 {
            seq![' '] + target[i as int]
        } else {
            Seq::<char>::empty()
        }) + seq!['\n'];
        proof {
            assert(rem.first() == target[i as int]);
            assert(rem.drop_first() =~= target.skip(i as int + 1));
            assert(spec_deletion_lines_text(rem) == piece + spec_deletion_lines_text(
                rem.drop_first(),
            ));
            reveal_strlit("-");
            reveal_strlit(" ");
            reveal_strlit("\n");
        }
        diff.append("-");
        let line = &lines[i];
        if !line.as_str().is_empty() {
            diff.append(" ");
            diff.append(line.as_str());
        }
        diff.append("\n");
        proof {
            assert(diff@ =~= old(diff)@ + (built + piece));
            assert(built + spec_deletion_lines_text(rem) =~= (built + piece)
                + spec_deletion_lines_text(rem.drop_first()));
        }
        i += 1;
        proof {
            built = built + piece;
        }
    }
    proof {
        assert(target.skip(target.len() as int) =~= Seq::<Seq<char>>::empty());
        assert(built + spec_deletion_lines_text(target.skip(target.len() as int)) =~= built);
    }
}

/// Render the diff of `text`: every row in order, each preceded by the
/// lines recorded as deleted above it (prefixed `-`), marked `+ ` when
/// its row lies in an inserted range and indented by two spaces
/// otherwise, and trimmed of trailing whitespace.
pub fn format_diff(
    text: String,
    actual_deletions: Vec<(u32, String)>,
    actual_insertions: Vec<core::ops::Range<u32>>,
) -> (diff: String)
    requires
        text@.len() < u32::MAX,
    ensures
        diff@ == spec_format_diff(text@, actual_deletions@, actual_insertions@),
{
    let lines = split_newlines(text.as_str());
    let ghost all = spec_split_lines(text@);
    proof {
        lemma_split_lines_count(text@);
    }
    let mut diff = String::new();
    let ghost mut built = Seq::<char>::empty();
    let mut i: usize = 0;
    proof {
        assert(all.skip(0) =~= all);
        assert(diff@ =~= built);
        assert(built + spec_diff_rows(all, 0, actual_deletions@, actual_insertions@)
            =~= spec_diff_rows(all, 0, actual_deletions@, actual_insertions@));
    }
    while i < lines.len()
        invariant
            i <= lines@.len(),
            lines@.len() == all.len(),
            all == spec_split_lines(text@),
            all.len() <= u32::MAX,
            forall|j: int| 0 <= j < lines@.len() ==> (#[trigger] lines@[j])@ == all[j],
            diff@ == built,
            spec_format_diff(text@, actual_deletions@, actual_insertions@) == built
                + spec_diff_rows(all.skip(i as int), i as int, actual_deletions@,
            actual_insertions@),
        decreases lines@.len() - i,
    {
        let ghost rem = all.skip(i as int);
        let ghost sep: Seq<char> = if i > 0 {
            seq!['\n']
        } else {
            Seq::<char>::empty()
        };
        let ghost row_piece = sep + spec_row_text(
            all[i as int],
            i as u32,
            actual_deletions@,
            actual_insertions@,
        );
        proof {
            assert(rem.first() == all[i as int]);
            assert(rem.drop_first() =~= all.skip(i as int + 1));
            assert(spec_diff_rows(rem, i as int, actual_deletions@, actual_insertions@)
                == row_piece + spec_diff_rows(
                rem.drop_first(),
                i as int + 1,
                actual_deletions@,
                actual_insertions@,
            ));
            reveal_strlit("\n");
            assert("\n"@ =~= seq!['\n']);
        }
        if i > 0 {
            diff.append("\n");
        }
        let ghost after_sep = diff@;
        proof {
            assert(after_sep =~= built + sep);
        }
        let row: u32 = i as u32;
        match find_deletion(&actual_deletions, row) {
            Some(deleted) => {
                append_deletion_block(&mut diff, &deleted);
                proof {
                    assert(spec_deletion_block(actual_deletions@, row)
                        == spec_deletion_lines_text(spec_lines(deleted@)));
                }
            },
            None => {
                proof {
                    assert(spec_deletion_block(actual_deletions@, row) =~= Seq::<char>::empty());
                }
            },
        }
        proof {
            assert(diff@ =~= after_sep + spec_deletion_block(actual_deletions@, row));
        }
        let marker: &str = if insertion_contains(&actual_insertions, row) {
            "+ "
        } else {
            "  "
        };
        proof {
            reveal_strlit("+ ");
            reveal_strlit("  ");
            assert("+ "@ =~= seq!['+', ' ']);
            assert("  "@ =~= seq![' ', ' ']);
            assert(marker@ == spec_marker(actual_insertions@, row));
        }
        let mut combined = marker.to_owned();
        let line = &lines[i];
        combined.append(line.as_str());
        assert(combined@ == spec_marker(actual_insertions@, row) + all[i as int]);
        let tl = trimmed_len(combined.as_str());
        let trimmed = combined.as_str().substring_char(0, tl);
        proof {
            assert(trimmed@ == spec_trim_end(
                spec_marker(actual_insertions@, row) + all[i as int],
            ));
        }
        diff.append(trimmed);
        proof {
            assert(diff@ =~= built + row_piece);
            let extended = built + row_piece;
            assert(extended + spec_diff_rows(
                all.skip(i as int + 1),
                i as int + 1,
                actual_deletions@,
                actual_insertions@,
            ) =~= built + spec_diff_rows(rem, i as int, actual_deletions@, actual_insertions@));
            built = extended;
        }
        i += 1;
    }
    proof {
        assert(all.skip(all.len() as int) =~= Seq::<Seq<char>>::empty());
        assert(built + spec_diff_rows(
            all.skip(all.len() as int),
            all.len() as int,
            actual_deletions@,
            actual_insertions@,
        ) =~= built);
    }
    diff
}

} // verus!
