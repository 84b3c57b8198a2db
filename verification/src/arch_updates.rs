//! The Arch Linux updates module: counting the updates that `checkupdates`
//! reports, laying the package lines out in aligned columns, and building the
//! module's JSON line with the pacman and AUR listings.

use vstd::prelude::*;
use crate::text::{
    byte_len, chars_of, decimal, format_u64, lemma_byte_len_bounds, lemma_byte_len_concat,
    lemma_byte_len_spaces, lemma_repeat_len, lemma_words_shape, push_repeated,
    push_replaced, repeat, replace_char, split_words, string_from_chars, string_views, trim_end,
    trimmed_len, words,
};

verus! {

/// The number of non-overlapping occurrences of `pat` in `s`, found from the
/// left as `str::split` finds them.
pub open spec fn count_matches(s: Seq<char>, pat: Seq<char>) -> nat
    decreases s.len(),
{
    if pat.len() == 0 || s.len() < pat.len() {
        0
    } else if s.take(pat.len() as int) == pat {
        1 + count_matches(s.skip(pat.len() as int), pat)
    } else {
        count_matches(s.drop_first(), pat)
    }
}

/// Whether `pat` occurs in `chars` at position `i`.
fn matches_at(chars: &Vec<char>, i: usize, pat: &Vec<char>) -> (res: bool)
    requires
        i + pat.len() <= chars.len(),
    ensures
        res == (chars@.subrange(i as int, i + pat.len()) == pat@),
{
    let mut j: usize = 0;
    while j < pat.len()
        invariant
            j <= pat.len(),
            i + pat.len() <= chars.len(),
            forall|k: int| 0 <= k < j ==> chars@[i + k] == pat@[k],
        decreases pat.len() - j,
    {
        if chars[i + j] != pat[j] {
            assert(chars@.subrange(i as int, i + pat.len())[j as int] != pat@[j as int]);
            return false;
        }
        j += 1;
    }
    assert(chars@.subrange(i as int, i + pat.len()) == pat@);
    true
}

/// The number of ` -> ` arrows in the output of `checkupdates`: one per package.
pub fn count_arrows(stdout: &str) -> (res: usize)
    ensures
        res == count_matches(stdout@, " -> "@),
        4 * res <= stdout@.len(),
        4 * res <= usize::MAX,
{
    proof {
        reveal_strlit(" -> ");
    }
    let chars = chars_of(stdout);
    let pat = chars_of(" -> ");
    let ghost s = stdout@;
    let ghost p = pat@;
    let n = chars.len();
    let m = pat.len();
    if m == 0 {
        return 0;
    }
    let mut count: usize = 0;
    let mut i: usize = 0;
    assert(s.skip(0) == s);
    while m <= n && i <= n - m
        invariant
            chars@ == s,
            pat@ == p,
            p == " -> "@,
            n == s.len(),
            m == p.len(),
            m > 0,
            i <= n,
            count * m <= i,
            count_matches(s, p) == count + count_matches(s.skip(i as int), p),
        decreases n - i,
    {
        let ghost rest = s.skip(i as int);
        assert(rest.take(m as int) == s.subrange(i as int, i + m));
        if matches_at(&chars, i, &pat) {
            assert(rest.skip(m as int) == s.skip(i + m));
            assert((count + 1) * m <= i + m && count < n) by (nonlinear_arith)
                requires
                    count * m <= i,
                    i + m <= n,
                    m >= 1,
            ;
            count += 1;
            i += m;
        } else {
            assert(rest.drop_first() == s.skip(i + 1));
            i += 1;
        }
    }
    count
}

/// The number of updates that `checkupdates` reported, and its output: none
/// (`0` and `"0"`) when it exited without a code or printed nothing; else the
/// number of pieces that ` -> ` splits the output into, as a `u16`, minus one.
pub open spec fn updates_of(exit_code: Option<i32>, stdout: Seq<char>) -> (u16, Seq<char>) {
    if exit_code is None || stdout.len() == 0 {
        (0, "0"@)
    } else {
        ((((count_matches(stdout, " -> "@) + 1) as u16) - 1) as u16, stdout)
    }
}

/// Reads the result of `checkupdates`. Subtracting one from the piece count
/// overflows when that count, taken as a `u16`, is 0.
pub fn parse_updates(exit_code: Option<i32>, stdout: &str) -> (res: (u16, String))
    requires
        exit_code is Some && stdout@.len() > 0 ==> ((count_matches(stdout@, " -> "@) + 1) as u16)
            != 0,
    ensures
        res.0 == updates_of(exit_code, stdout@).0,
        res.1@ == updates_of(exit_code, stdout@).1,
{
    match exit_code {
        Some(_code) => {
            if stdout.is_empty() {
                let mut zero = String::new();
                zero.append("0");
                return (0, zero);
            }
            let pieces = count_arrows(stdout) as u64 + 1;
            let count = (pieces as u16);
            assert(count == ((count_matches(stdout@, " -> "@) + 1) as u16));
            let mut out = String::new();
            out.append(stdout);
            (count - 1, out)
        },
        None => {
            let mut zero = String::new();
            zero.append("0");
            (0, zero)
        },
    }
}

/// The number of tooltip columns for a number of pacman updates.
pub open spec fn columns_of(updates: u16) -> nat {
    if updates < 10 {
        1
    } else if updates < 20 {
        2
    } else if updates < 80 {
        3
    } else {
        4
    }
}

/// Picks the number of tooltip columns.
pub fn columns_for(updates: u16) -> (res: usize)
    ensures
        res == columns_of(updates),
{
    if updates < 10 {
        1
    } else if updates < 20 {
        2
    } else if updates < 80 {
        3
    } else {
        4
    }
}

/// The width of column `c` of the word table: the largest byte length of the
/// words whose index is `c` modulo 4, or 0.
pub open spec fn col_width(ws: Seq<Seq<char>>, c: int) -> nat
    decreases ws.len(),
{
    if ws.len() == 0 {
        0
    } else {
        let w = col_width(ws.drop_last(), c);
        if (ws.len() - 1) % 4 == c && byte_len(ws.last()) > w {
            byte_len(ws.last())
        } else {
            w
        }
    }
}

/// Word `i` padded with spaces to the width of its column.
pub open spec fn padded_word(ws: Seq<Seq<char>>, i: int) -> Seq<char> {
    ws[i] + repeat(seq![' '], (col_width(ws, i % 4) - byte_len(ws[i])) as nat)
}

/// The words taken four at a time, each group joined by a space: what
/// `chunks(4).map(|line| line.join(" "))` gives.
pub open spec fn chunk_lines(pw: Seq<Seq<char>>) -> Seq<Seq<char>>
    decreases pw.len(),
{
    if pw.len() == 0 {
        seq![]
    } else {
        let prev = chunk_lines(pw.drop_last());
        if (pw.len() - 1) % 4 == 0 {
            prev.push(pw.last())
        } else {
            prev.update(prev.len() - 1, prev.last() + seq![' '] + pw.last())
        }
    }
}

/// The words of `s` laid out in lines of four, each word padded to the width
/// of its column: the lines of the reformatted `checkupdates` output.
pub open spec fn aligned_lines(s: Seq<char>) -> Seq<Seq<char>> {
    let ws = words(s);
    chunk_lines(Seq::new(ws.len(), |i: int| padded_word(ws, i)))
}

/// There is one line per started group of four words.
pub proof fn lemma_chunk_lines_len(pw: Seq<Seq<char>>)
    ensures
        chunk_lines(pw).len() == (pw.len() + 3) / 4,
    decreases pw.len(),
{
    if pw.len() > 0 {
        lemma_chunk_lines_len(pw.drop_last());
    }
}

/// Every word fits in its column, and no column is wider than the widest word.
proof fn lemma_col_width(ws: Seq<Seq<char>>, bound: nat)
    requires
        forall|i: int| 0 <= i < ws.len() ==> byte_len(#[trigger] ws[i]) <= bound,
    ensures
        forall|i: int| 0 <= i < ws.len() ==> byte_len(#[trigger] ws[i]) <= col_width(ws, i % 4),
        forall|c: int| col_width(ws, c) <= bound,
    decreases ws.len(),
{
    if ws.len() > 0 {
        let p = ws.drop_last();
        assert forall|i: int| 0 <= i < p.len() implies byte_len(#[trigger] p[i]) <= bound by {
            assert(p[i] == ws[i]);
        }
        lemma_col_width(p, bound);
        assert(byte_len(ws[ws.len() - 1]) <= bound);
        assert forall|c: int| col_width(ws, c) <= bound by {
            assert(col_width(p, c) <= bound);
        }
        assert forall|i: int| 0 <= i < ws.len() implies byte_len(#[trigger] ws[i]) <= col_width(
            ws,
            i % 4,
        ) by {
            if i < p.len() {
                assert(p[i] == ws[i]);
            }
        }
    }
}

/// The reformatted lines of a `checkupdates` output.
pub fn align_lines(s: &str) -> (res: Vec<String>)
    requires
        4 * s@.len() <= usize::MAX,
    ensures
        string_views(res@) == aligned_lines(s@),
{
    let ws = split_words(s);
    let ghost wv = words(s@);
    let ghost pw = Seq::new(wv.len(), |i: int| padded_word(wv, i));
    proof {
        lemma_words_shape(s@);
        assert forall|i: int| 0 <= i < wv.len() implies byte_len(#[trigger] wv[i]) <= 4 * s@.len() by {
            lemma_byte_len_bounds(wv[i]);
        }
        lemma_col_width(wv, 4 * s@.len());
    }
    let mut widths: Vec<usize> = Vec::new();
    widths.push(0);
    widths.push(0);
    widths.push(0);
    widths.push(0);
    let mut i: usize = 0;
    while i < ws.len()
        invariant
            i <= ws.len(),
            string_views(ws@) == wv,
            forall|j: int| 0 <= j < wv.len() ==> byte_len(#[trigger] wv[j]) <= 4 * s@.len(),
            4 * s@.len() <= usize::MAX,
            widths@.len() == 4,
            forall|c: int| 0 <= c < 4 ==> widths@[c] == col_width(wv.take(i as int), c),
        decreases ws.len() - i,
    {
        assert(wv.take(i + 1).drop_last() == wv.take(i as int));
        assert(ws@[i as int]@ == wv[i as int]);
        let len = ws[i].as_str().len();
        let c = i % 4;
        if len > widths[c] {
            widths.set(c, len);
        }
        i += 1;
    }
    assert(wv.take(ws.len() as int) == wv);
    let mut lines: Vec<String> = Vec::new();
    let mut k: usize = 0;
    while k < ws.len()
        invariant
            k <= ws.len(),
            string_views(ws@) == wv,
            pw == Seq::new(wv.len(), |i: int| padded_word(wv, i)),
            forall|j: int| 0 <= j < wv.len() ==> byte_len(#[trigger] wv[j]) <= col_width(wv, j % 4),
            forall|c: int| col_width(wv, c) <= 4 * s@.len(),
            4 * s@.len() <= usize::MAX,
            widths@.len() == 4,
            forall|c: int| 0 <= c < 4 ==> widths@[c] == col_width(wv, c),
            string_views(lines@) == chunk_lines(pw.take(k as int)),
        decreases ws.len() - k,
    {
        assert(pw.take(k + 1).drop_last() == pw.take(k as int));
        assert(ws@[k as int]@ == wv[k as int]);
        proof {
            lemma_chunk_lines_len(pw.take(k as int));
        }
        let word = ws[k].as_str();
        let len = word.len();
        let mut padded = String::new();
        padded.append(word);
        push_repeated(&mut padded, " ", widths[k % 4] - len);
        assert(" "@ == seq![' ']) by {
            reveal_strlit(" ");
        }
        assert(padded@ == pw[k as int]);
        let ghost before = string_views(lines@);
        if k % 4 == 0 {
            lines.push(padded);
            assert(string_views(lines@) == before.push(pw[k as int]));
        } else {
            let last = lines.len() - 1;
            let mut line = lines[last].clone();
            line.append(" ");
            line.append(padded.as_str());
            lines.set(last, line);
            assert(string_views(lines@) == before.update(
                before.len() - 1,
                before.last() + seq![' '] + pw[k as int],
            ));
        }
        k += 1;
    }
    assert(pw.take(ws.len() as int) == pw);
    lines
}

/// Whether `needle` occurs in `hay`: `str::contains` with a string pattern.
pub open spec fn contains_seq(hay: Seq<char>, needle: Seq<char>) -> bool {
    exists|i: int|
        0 <= i <= hay.len() - needle.len() && #[trigger] hay.subrange(i, i + needle.len())
            == needle
}

/// Whether `needle` occurs in `hay`.
pub fn chars_contain(hay: &Vec<char>, needle: &Vec<char>) -> (res: bool)
    ensures
        res == contains_seq(hay@, needle@),
{
    if needle.len() > hay.len() {
        return false;
    }
    let last = hay.len() - needle.len();
    let mut i: usize = 0;
    loop
        invariant
            i <= last,
            last == hay.len() - needle.len(),
            needle.len() <= hay.len(),
            forall|j: int| 0 <= j < i ==> #[trigger] hay@.subrange(j, j + needle.len()) != needle@,
        decreases last - i,
    {
        if matches_at(hay, i, needle) {
            return true;
        }
        if i == last {
            assert forall|j: int|
                0 <= j <= hay@.len() - needle@.len() implies #[trigger] hay@.subrange(
                j,
                j + needle@.len(),
            ) != needle@ by {
                if j < i {
                    assert(hay@.subrange(j, j + needle.len()) != needle@);
                }
            }
            return false;
        }
        i += 1;
    }
}

/// The separator after the `count`-th line laid out in `columns` columns: a
/// column gap, or a line break after the last column.
pub open spec fn column_sep(count: nat, columns: nat) -> Seq<char> {
    if (count % columns) < columns - 1 {
        "\t | "@
    } else {
        "\n"@
    }
}

/// Lays lines out in `columns` columns, skipping those that occur in `known`:
/// the text, the longest line so far plus the column gaps (`longest0` to start
/// with), the number of lines laid out, and the number skipped.
pub open spec fn lay_out(
    lines: Seq<Seq<char>>,
    columns: nat,
    known: Option<Seq<char>>,
    longest0: nat,
) -> (Seq<char>, nat, nat, nat)
    decreases lines.len(),
{
    if lines.len() == 0 {
        (seq![], longest0, 0, 0)
    } else {
        let (text, longest, count, skipped) = lay_out(lines.drop_last(), columns, known, longest0);
        let line = lines.last();
        if known is Some && contains_seq(known->0, line) {
            (text, longest, count, skipped + 1)
        } else {
            (
                text + line + column_sep(count, columns),
                if byte_len(line) > longest {
                    (byte_len(line) + 3 * (columns - 1)) as nat
                } else {
                    longest
                },
                count + 1,
                skipped,
            )
        }
    }
}

/// Every line, with the column gaps, has a byte length that fits in a `usize`.
pub open spec fn lines_fit(lines: Seq<Seq<char>>, columns: nat) -> bool {
    forall|i: int|
        0 <= i < lines.len() ==> byte_len(#[trigger] lines[i]) + 3 * (columns - 1) <= usize::MAX
}

/// Lays the lines out as `lay_out` says.
pub fn lay_out_lines(lines: &Vec<String>, columns: usize, known: Option<&Vec<char>>, longest0: usize) -> (res: (
    String,
    usize,
    usize,
    usize,
))
    requires
        columns >= 1,
        lines_fit(string_views(lines@), columns as nat),
    ensures
        ({
            let spec_known = match known {
                Some(k) => Some(k@),
                None => None,
            };
            let r = lay_out(string_views(lines@), columns as nat, spec_known, longest0 as nat);
            &&& res.0@ == r.0
            &&& res.1 == r.1
            &&& res.2 == r.2
            &&& res.3 == r.3
        }),
{
    let ghost ls = string_views(lines@);
    let ghost spec_known = match known {
        Some(k) => Some(k@),
        None => None,
    };
    let mut text = String::new();
    let mut longest = longest0;
    let mut count: usize = 0;
    let mut skipped: usize = 0;
    let mut i: usize = 0;
    while i < lines.len()
        invariant
            i <= lines.len(),
            columns >= 1,
            ls == string_views(lines@),
            lines_fit(ls, columns as nat),
            spec_known == match known {
                Some(k) => Some(k@),
                None => None,
            },
            count + skipped == i,
            ({
                let r = lay_out(ls.take(i as int), columns as nat, spec_known, longest0 as nat);
                &&& text@ == r.0
                &&& longest == r.1
                &&& count == r.2
                &&& skipped == r.3
            }),
        decreases lines.len() - i,
    {
        assert(ls.take(i + 1).drop_last() == ls.take(i as int));
        assert(ls[i as int] == lines@[i as int]@);
        let line = lines[i].as_str();
        let is_known = match known {
            Some(k) => {
                let cs = chars_of(line);
                chars_contain(k, &cs)
            },
            None => false,
        };
        if is_known {
            skipped += 1;
        } else {
            text.append(line);
            if count % columns < columns - 1 {
                text.append("\t | ");
            } else {
                text.append("\n");
            }
            let len = line.len();
            if len > longest {
                longest = len + 3 * (columns - 1);
            }
            count += 1;
        }
        i += 1;
    }
    assert(ls.take(lines.len() as int) == ls);
    (text, longest, count, skipped)
}

/// Lines joined by line breaks: `lines.join("\n")`.
pub open spec fn join_lines(lines: Seq<Seq<char>>) -> Seq<char>
    decreases lines.len(),
{
    if lines.len() == 0 {
        seq![]
    } else if lines.len() == 1 {
        lines[0]
    } else {
        join_lines(lines.drop_last()) + "\n"@ + lines.last()
    }
}

/// Joins lines with line breaks.
pub fn join_with_newlines(lines: &Vec<String>) -> (res: String)
    ensures
        res@ == join_lines(string_views(lines@)),
{
    let ghost ls = string_views(lines@);
    let mut out = String::new();
    let mut i: usize = 0;
    while i < lines.len()
        invariant
            i <= lines.len(),
            ls == string_views(lines@),
            out@ == join_lines(ls.take(i as int)),
        decreases lines.len() - i,
    {
        assert(ls.take(i + 1).drop_last() == ls.take(i as int));
        assert(ls[i as int] == lines@[i as int]@);
        if i > 0 {
            out.append("\n");
        }
        out.append(lines[i].as_str());
        i += 1;
    }
    assert(ls.take(lines.len() as int) == ls);
    out
}

/// Text made safe for a JSON string: `"` becomes `\"`, a line break `\n`,
/// a tab `\t` (the three `replace` calls in turn).
pub open spec fn escaped(s: Seq<char>) -> Seq<char> {
    replace_char(replace_char(replace_char(s, '"', "\\\""@), '\n', "\\n"@), '\t', "\\t"@)
}

/// `text.trim_end()` made safe for a JSON string.
pub fn escape_trimmed(text: &str) -> (res: String)
    ensures
        res@ == escaped(trim_end(text@)),
{
    let chars = chars_of(text);
    let k = trimmed_len(&chars);
    let mut kept: Vec<char> = Vec::new();
    let mut i: usize = 0;
    while i < k
        invariant
            i <= k <= chars.len(),
            kept@ == chars@.take(i as int),
        decreases k - i,
    {
        kept.push(chars[i]);
        i += 1;
    }
    let trimmed = string_from_chars(&kept);
    let mut a = String::new();
    push_replaced(&mut a, trimmed.as_str(), '"', "\\\"");
    let mut b = String::new();
    push_replaced(&mut b, a.as_str(), '\n', "\\n");
    let mut c = String::new();
    push_replaced(&mut c, b.as_str(), '\t', "\\t");
    c
}

/// Outputs of `checkupdates` short enough that every length the module
/// computes from them fits in a `usize`.
pub open spec fn output_fits(s: Seq<char>) -> bool {
    512 * s.len() <= usize::MAX
}

/// Whether every length the module computes from the output `s` fits in a
/// `usize`.
pub fn layout_fits(s: &str) -> (res: bool)
    ensures
        res == output_fits(s@),
{
    let n = s.unicode_len();
    let fits = n <= usize::MAX / 512;
    assert(fits == (512 * n <= usize::MAX)) by (nonlinear_arith)
        requires
            fits == (n <= usize::MAX / 512),
            usize::MAX > 0,
    ;
    fits
}

/// The number of columns of the tooltip: by the number of pacman updates, 1 without any.
pub open spec fn tooltip_columns(updates: u16) -> nat {
    if updates > 0 {
        columns_of(updates)
    } else {
        1
    }
}

/// The pacman text that AUR lines are looked up in: the reformatted output
/// when there are pacman updates, else the output as it came.
pub open spec fn pacman_text(updates: u16, stdout: Seq<char>) -> Seq<char> {
    if updates > 0 {
        join_lines(aligned_lines(stdout))
    } else {
        stdout
    }
}

/// The pacman lines laid out in columns (nothing without pacman updates).
pub open spec fn pacman_layout(updates: u16, stdout: Seq<char>) -> (Seq<char>, nat, nat, nat) {
    if updates > 0 {
        lay_out(aligned_lines(stdout), tooltip_columns(updates), None, 0)
    } else {
        (seq![], 0, 0, 0)
    }
}

/// The AUR lines laid out in columns, leaving out those the pacman text
/// already holds (nothing without AUR updates).
pub open spec fn aur_layout(updates: u16, stdout: Seq<char>, aur_updates: u16, aur_stdout: Seq<char>) -> (
    Seq<char>,
    nat,
    nat,
    nat,
) {
    if aur_updates > 0 {
        lay_out(
            aligned_lines(aur_stdout),
            tooltip_columns(updates),
            Some(pacman_text(updates, stdout)),
            pacman_layout(updates, stdout).1,
        )
    } else {
        (seq![], pacman_layout(updates, stdout).1, 0, 0)
    }
}

/// The AUR update count less the lines already listed by pacman.
pub open spec fn aur_remaining(updates: u16, stdout: Seq<char>, aur_updates: u16, aur_stdout: Seq<char>) -> int {
    aur_updates - aur_layout(updates, stdout, aur_updates, aur_stdout).3
}

/// The tooltip: a PACMAN section when there are pacman updates, then an AUR
/// section when AUR updates remain; each a header, a rule of `¯` as wide as the
/// widest line, and the escaped listing.
pub open spec fn updates_tooltip(updates: u16, stdout: Seq<char>, aur_updates: u16, aur_stdout: Seq<char>) -> Seq<char> {
    let columns = tooltip_columns(updates);
    let aur = aur_layout(updates, stdout, aur_updates, aur_stdout);
    let rule = repeat("¯"@, columns * aur.1);
    let remaining = aur_remaining(updates, stdout, aur_updates, aur_stdout);
    let pacman_section = if updates > 0 {
        "PACMAN ("@ + decimal(updates as nat) + ")\\n"@ + rule + " \\n"@ + escaped(
            trim_end(pacman_layout(updates, stdout).0),
        ) + "\\n"@
    } else {
        seq![]
    };
    if remaining > 0 {
        pacman_section + "\\nAUR ("@ + decimal(remaining as nat) + ") \\n"@ + rule + "\\n"@ + escaped(
            trim_end(aur.0),
        ) + "\\n"@
    } else {
        pacman_section
    }
}

/// The line the updates module prints.
pub open spec fn updates_line(updates: u16, stdout: Seq<char>, aur_updates: u16, aur_stdout: Seq<char>) -> Seq<char> {
    let remaining = aur_remaining(updates, stdout, aur_updates, aur_stdout);
    let tooltip = updates_tooltip(updates, stdout, aur_updates, aur_stdout);
    if updates > 0 || remaining > 0 {
        "{\"text\":\""@ + decimal((updates + remaining) as nat) + "("@ + decimal(updates as nat)
            + "+"@ + decimal(remaining as nat) + ")\",\"tooltip\":\""@ + tooltip
            + "\",\"class\":\"has-updates\",\"alt\":\""@ + tooltip + "\",\"percentage\":0}"@
    } else {
        "{\"text\":\"\",\"tooltip\":\"\",\"class\":\"\",\"alt\":\"\",\"percentage\":0}"@
    }
}

/// Every group of four padded words makes a line of at most `4 * m + 3` characters.
proof fn lemma_chunk_lines_bound(pw: Seq<Seq<char>>, m: nat)
    requires
        forall|i: int| 0 <= i < pw.len() ==> (#[trigger] pw[i]).len() <= m,
    ensures
        forall|k: int| 0 <= k < chunk_lines(pw).len() ==> (#[trigger] chunk_lines(pw)[k]).len() <= 4
            * m + 3,
        pw.len() > 0 ==> chunk_lines(pw).last().len() + 1 <= ((pw.len() - 1) % 4 + 1) * (m + 1),
    decreases pw.len(),
{
    lemma_chunk_lines_len(pw);
    if pw.len() > 0 {
        let p = pw.drop_last();
        assert forall|i: int| 0 <= i < p.len() implies (#[trigger] p[i]).len() <= m by {
            assert(p[i] == pw[i]);
        }
        lemma_chunk_lines_bound(p, m);
        lemma_chunk_lines_len(p);
        let r = (pw.len() - 1) % 4;
        assert(pw[pw.len() - 1].len() <= m);
        if r == 0 {
            assert(1 * (m + 1) == m + 1);
        } else {
            assert((p.len() - 1) % 4 == r - 1);
            assert(chunk_lines(p).last().len() + 1 <= r * (m + 1));
            assert((r + 1) * (m + 1) == r * (m + 1) + m + 1) by (nonlinear_arith);
            assert(r * (m + 1) <= 3 * (m + 1)) by (nonlinear_arith)
                requires
                    r <= 3,
            ;
        }
        assert(((pw.len() - 1) % 4 + 1) * (m + 1) <= 4 * (m + 1)) by (nonlinear_arith)
            requires
                0 <= (pw.len() - 1) % 4 <= 3,
        ;
    }
}

/// The reformatted lines of an output of `n` characters are at most
/// `80 * n + 12` bytes long.
proof fn lemma_aligned_lines_bound(s: Seq<char>)
    requires
        4 * s.len() <= usize::MAX,
    ensures
        forall|k: int|
            0 <= k < aligned_lines(s).len() ==> byte_len(#[trigger] aligned_lines(s)[k]) <= 80
                * s.len() + 12,
{
    let ws = words(s);
    let pw = Seq::new(ws.len(), |i: int| padded_word(ws, i));
    lemma_words_shape(s);
    assert forall|i: int| 0 <= i < ws.len() implies byte_len(#[trigger] ws[i]) <= 4 * s.len() by {
        lemma_byte_len_bounds(ws[i]);
    }
    lemma_col_width(ws, 4 * s.len());
    assert forall|i: int| 0 <= i < pw.len() implies (#[trigger] pw[i]).len() <= 5 * s.len() by {
        lemma_byte_len_bounds(ws[i]);
        lemma_repeat_len(seq![' '], (col_width(ws, i % 4) - byte_len(ws[i])) as nat);
        assert(pw[i].len() == ws[i].len() + (col_width(ws, i % 4) - byte_len(ws[i])));
    }
    lemma_chunk_lines_bound(pw, 5 * s.len());
    assert forall|k: int| 0 <= k < aligned_lines(s).len() implies byte_len(
        #[trigger] aligned_lines(s)[k],
    ) <= 80 * s.len() + 12 by {
        lemma_byte_len_bounds(aligned_lines(s)[k]);
    }
}

/// With lines of at most `b` bytes, the longest-line figure never exceeds
/// `b + 3 * (columns - 1)` or its start value.
proof fn lemma_lay_out_longest(lines: Seq<Seq<char>>, columns: nat, known: Option<Seq<char>>, longest0: nat, b: nat)
    requires
        columns >= 1,
        forall|k: int| 0 <= k < lines.len() ==> byte_len(#[trigger] lines[k]) <= b,
        longest0 <= b + 3 * (columns - 1),
    ensures
        lay_out(lines, columns, known, longest0).1 <= b + 3 * (columns - 1),
        lay_out(lines, columns, known, longest0).2 + lay_out(lines, columns, known, longest0).3
            == lines.len(),
    decreases lines.len(),
{
    if lines.len() > 0 {
        let p = lines.drop_last();
        assert forall|k: int| 0 <= k < p.len() implies byte_len(#[trigger] p[k]) <= b by {
            assert(p[k] == lines[k]);
        }
        lemma_lay_out_longest(p, columns, known, longest0, b);
        assert(byte_len(lines[lines.len() - 1]) <= b);
    }
}

/// The pacman and AUR layouts, the longest-line figure, the number of AUR
/// lines skipped, and the number of columns.
fn compute_layouts(updates: u16, stdout: &str, aur_updates: u16, aur_stdout: &str) -> (res: (
    String,
    String,
    usize,
    usize,
    usize,
))
    requires
        output_fits(stdout@),
        output_fits(aur_stdout@),
    ensures
        res.0@ == pacman_layout(updates, stdout@).0,
        res.1@ == aur_layout(updates, stdout@, aur_updates, aur_stdout@).0,
        res.2 == aur_layout(updates, stdout@, aur_updates, aur_stdout@).1,
        res.3 == aur_layout(updates, stdout@, aur_updates, aur_stdout@).3,
        res.4 == tooltip_columns(updates),
        res.4 * res.2 <= usize::MAX,
        res.3 <= aligned_lines(aur_stdout@).len(),
{
    let columns: usize = if updates > 0 {
        columns_for(updates)
    } else {
        1
    };
    let ghost m: nat = if stdout@.len() > aur_stdout@.len() {
        stdout@.len()
    } else {
        aur_stdout@.len()
    };
    let ghost b: nat = 80 * m + 12;
    proof {
        lemma_aligned_lines_bound(stdout@);
        lemma_aligned_lines_bound(aur_stdout@);
        assert(forall|k: int|
            0 <= k < aligned_lines(stdout@).len() ==> byte_len(#[trigger] aligned_lines(stdout@)[k])
                <= b);
        assert(forall|k: int|
            0 <= k < aligned_lines(aur_stdout@).len() ==> byte_len(
                #[trigger] aligned_lines(aur_stdout@)[k],
            ) <= b);
        assert(b + 3 * (columns - 1) <= usize::MAX);
    }
    let mut pac_laid = String::new();
    let mut longest: usize = 0;
    let known_text: String;
    if updates > 0 {
        let lines = align_lines(stdout);
        proof {
            lemma_lay_out_longest(aligned_lines(stdout@), columns as nat, None, 0, b);
        }
        let (t, l, _c, _s) = lay_out_lines(&lines, columns, None, 0);
        pac_laid = t;
        longest = l;
        known_text = join_with_newlines(&lines);
    } else {
        known_text = stdout.to_owned();
    }
    assert(known_text@ == pacman_text(updates, stdout@));
    assert(longest == pacman_layout(updates, stdout@).1);
    assert(longest <= b + 3 * (columns - 1));
    let mut aur_laid = String::new();
    let mut skipped: usize = 0;
    if aur_updates > 0 {
        let lines = align_lines(aur_stdout);
        let known = chars_of(known_text.as_str());
        proof {
            lemma_lay_out_longest(
                aligned_lines(aur_stdout@),
                columns as nat,
                Some(known@),
                longest as nat,
                b,
            );
        }
        let (t, l, _c, sk) = lay_out_lines(&lines, columns, Some(&known), longest);
        aur_laid = t;
        longest = l;
        skipped = sk;
    }
    assert(columns * longest <= usize::MAX) by (nonlinear_arith)
        requires
            1 <= columns <= 4,
            longest <= b + 3 * (columns - 1),
            b == 80 * m + 12,
            512 * m <= usize::MAX,
            usize::MAX >= 0xffff_ffff,
    ;
    (pac_laid, aur_laid, longest, skipped, columns)
}

/// The number of AUR lines that the pacman text already holds: the number of
/// times the module decrements its AUR count.
pub fn aur_skipped(updates: u16, stdout: &str, aur_updates: u16, aur_stdout: &str) -> (res: usize)
    requires
        output_fits(stdout@),
        output_fits(aur_stdout@),
    ensures
        res == aur_layout(updates, stdout@, aur_updates, aur_stdout@).3,
{
    let (_p, _a, _l, skipped, _c) = compute_layouts(updates, stdout, aur_updates, aur_stdout);
    skipped
}

/// The line the updates module prints for the pacman and AUR results. The AUR
/// count must cover the lines it loses to the pacman listing, and the total
/// must fit in a `u16`: the module's `u16` arithmetic overflows otherwise.
pub fn updates_output(updates: u16, stdout: &str, aur_updates: u16, aur_stdout: &str) -> (res: String)
    requires
        output_fits(stdout@),
        output_fits(aur_stdout@),
        aur_layout(updates, stdout@, aur_updates, aur_stdout@).3 <= aur_updates,
        updates + aur_remaining(updates, stdout@, aur_updates, aur_stdout@) <= u16::MAX,
    ensures
        res@ == updates_line(updates, stdout@, aur_updates, aur_stdout@),
{
    let (pac_laid, aur_laid, longest, skipped, columns) = compute_layouts(
        updates,
        stdout,
        aur_updates,
        aur_stdout,
    );
    let remaining: u16 = aur_updates - (skipped as u16);
    let mut rule = String::new();
    push_repeated(&mut rule, "¯", columns * longest);
    let mut tooltip = String::new();
    if updates > 0 {
        tooltip.append("PACMAN (");
        tooltip.append(format_u64(updates as u64).as_str());
        tooltip.append(")\\n");
        tooltip.append(rule.as_str());
        tooltip.append(" \\n");
        tooltip.append(escape_trimmed(pac_laid.as_str()).as_str());
        tooltip.append("\\n");
    }
    if remaining > 0 {
        tooltip.append("\\nAUR (");
        tooltip.append(format_u64(remaining as u64).as_str());
        tooltip.append(") \\n");
        tooltip.append(rule.as_str());
        tooltip.append("\\n");
        tooltip.append(escape_trimmed(aur_laid.as_str()).as_str());
        tooltip.append("\\n");
    }
    let mut line = String::new();
    if updates > 0 || remaining > 0 {
        line.append("{\"text\":\"");
        line.append(format_u64((updates + remaining) as u64).as_str());
        line.append("(");
        line.append(format_u64(updates as u64).as_str());
        line.append("+");
        line.append(format_u64(remaining as u64).as_str());
        line.append(")\",\"tooltip\":\"");
        line.append(tooltip.as_str());
        line.append("\",\"class\":\"has-updates\",\"alt\":\"");
        line.append(tooltip.as_str());
        line.append("\",\"percentage\":0}");
    } else {
        line.append("{\"text\":\"\",\"tooltip\":\"\",\"class\":\"\",\"alt\":\"\",\"percentage\":0}");
    }
    line
}

/// The word table lines up: every padded word is exactly as many bytes long as
/// its column is wide.
pub proof fn lemma_padded_word_width(ws: Seq<Seq<char>>, i: int)
    requires
        0 <= i < ws.len(),
    ensures
        byte_len(padded_word(ws, i)) == col_width(ws, i % 4),
{
    lemma_col_width_covers(ws);
    let n = (col_width(ws, i % 4) - byte_len(ws[i])) as nat;
    lemma_byte_len_concat(ws[i], repeat(seq![' '], n));
    lemma_byte_len_spaces(n);
}

/// Every word fits in its column.
pub proof fn lemma_col_width_covers(ws: Seq<Seq<char>>)
    ensures
        forall|i: int| 0 <= i < ws.len() ==> byte_len(#[trigger] ws[i]) <= col_width(ws, i % 4),
    decreases ws.len(),
{
    if ws.len() > 0 {
        let p = ws.drop_last();
        lemma_col_width_covers(p);
        assert forall|i: int| 0 <= i < ws.len() implies byte_len(#[trigger] ws[i]) <= col_width(
            ws,
            i % 4,
        ) by {
            if i < p.len() {
                assert(p[i] == ws[i]);
            }
        }
    }
}

/// More pacman updates never mean fewer tooltip columns.
pub proof fn lemma_columns_monotone(a: u16, b: u16)
    requires
        a <= b,
    ensures
        1 <= columns_of(a) <= columns_of(b) <= 4,
{
}

/// The lines of a listing that `known` does not hold, in order.
pub open spec fn lines_not_in(lines: Seq<Seq<char>>, known: Seq<char>) -> Seq<Seq<char>>
    decreases lines.len(),
{
    if lines.len() == 0 {
        seq![]
    } else if contains_seq(known, lines.last()) {
        lines_not_in(lines.drop_last(), known)
    } else {
        lines_not_in(lines.drop_last(), known).push(lines.last())
    }
}

/// Skipping the lines that the pacman text already holds is the same as
/// laying out only the other lines: a skipped line takes no column, so the
/// lines after it keep the places they would have without it. The skipped
/// count is the number of lines left out.
pub proof fn lemma_lay_out_skips_known(lines: Seq<Seq<char>>, columns: nat, known: Seq<char>, longest0: nat)
    ensures
        lay_out(lines, columns, Some(known), longest0).0 == lay_out(
            lines_not_in(lines, known),
            columns,
            None,
            longest0,
        ).0,
        lay_out(lines, columns, Some(known), longest0).1 == lay_out(
            lines_not_in(lines, known),
            columns,
            None,
            longest0,
        ).1,
        lay_out(lines, columns, Some(known), longest0).2 == lines_not_in(lines, known).len(),
        lay_out(lines, columns, Some(known), longest0).3 == lines.len() - lines_not_in(
            lines,
            known,
        ).len(),
    decreases lines.len(),
{
    if lines.len() > 0 {
        let p = lines.drop_last();
        lemma_lay_out_skips_known(p, columns, known, longest0);
        lemma_lay_out_accounts(lines_not_in(p, known), columns, None, longest0);
        if !contains_seq(known, lines.last()) {
            let u = lines_not_in(lines, known);
            assert(u.drop_last() =~= lines_not_in(p, known));
            assert(u.last() == lines.last());
        }
    }
}

/// Every line of a listing is either laid out or skipped as already listed by
/// pacman; the AUR count drops by one for each skipped line.
pub proof fn lemma_lay_out_accounts(lines: Seq<Seq<char>>, columns: nat, known: Option<Seq<char>>, longest0: nat)
    ensures
        lay_out(lines, columns, known, longest0).2 + lay_out(lines, columns, known, longest0).3
            == lines.len(),
        known is None ==> lay_out(lines, columns, known, longest0).3 == 0,
    decreases lines.len(),
{
    if lines.len() > 0 {
        lemma_lay_out_accounts(lines.drop_last(), columns, known, longest0);
    }
}

} // verus!
