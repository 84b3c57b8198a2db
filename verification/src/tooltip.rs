//! The aligned listings that the graph modules show under their tooltips, and
//! the lines that go into them.

use vstd::prelude::*;
use crate::text::{
    byte_len, count_char, lemma_byte_len_spaces, lemma_replace_once_byte_len, lemma_byte_len_bounds, push_repeated, push_replaced, repeat, replace_char,
    signed_decimal, decimal, string_views, format_i64, format_u64,
};

verus! {

/// The largest byte length of the lines, or 0 when there is none.
pub open spec fn max_byte_len(lines: Seq<Seq<char>>) -> nat
    decreases lines.len(),
{
    if lines.len() == 0 {
        0
    } else if byte_len(lines.last()) > max_byte_len(lines.drop_last()) {
        byte_len(lines.last())
    } else {
        max_byte_len(lines.drop_last())
    }
}

/// A line of a listing padded to `width`: every `-` becomes
/// `width - (len - 1)` spaces, `len` being the line's byte length.
pub open spec fn tab_line(line: Seq<char>, width: nat) -> Seq<char> {
    replace_char(line, '-', repeat(seq![' '], (width - (byte_len(line) - 1)) as nat))
}

/// The lines, each padded to `width` and followed by `suffix`.
pub open spec fn tabulated(lines: Seq<Seq<char>>, width: nat, suffix: Seq<char>) -> Seq<char>
    decreases lines.len(),
{
    if lines.len() == 0 {
        seq![]
    } else {
        tabulated(lines.drop_last(), width, suffix) + tab_line(lines.last(), width) + suffix
    }
}

/// The lines are not empty and their byte lengths fit in a `usize`.
pub open spec fn listable(lines: Seq<Seq<char>>) -> bool {
    forall|i: int|
        0 <= i < lines.len() ==> lines[i].len() > 0 && byte_len(#[trigger] lines[i]) <= usize::MAX
}

proof fn lemma_max_byte_len(lines: Seq<Seq<char>>)
    ensures
        forall|i: int| 0 <= i < lines.len() ==> byte_len(#[trigger] lines[i]) <= max_byte_len(lines),
        lines.len() == 0 ==> max_byte_len(lines) == 0,
        lines.len() > 0 ==> exists|i: int|
            0 <= i < lines.len() && byte_len(#[trigger] lines[i]) == max_byte_len(lines),
    decreases lines.len(),
{
    if lines.len() > 0 {
        let p = lines.drop_last();
        lemma_max_byte_len(p);
        assert forall|i: int| 0 <= i < lines.len() implies byte_len(#[trigger] lines[i]) <= max_byte_len(lines) by {
            if i < p.len() {
                assert(lines[i] == p[i]);
            }
        }
        if byte_len(lines.last()) > max_byte_len(p) {
            assert(byte_len(lines[lines.len() - 1]) == max_byte_len(lines));
        } else if p.len() > 0 {
            let j = choose|j: int| 0 <= j < p.len() && byte_len(#[trigger] p[j]) == max_byte_len(p);
            assert(lines[j] == p[j]);
        } else {
            assert(byte_len(lines[0]) == max_byte_len(lines));
        }
    }
}

/// Lays the lines out as a listing: each `-` widened so that the lines line
/// up, each line followed by `suffix`. This is the tooltip body of the CPU,
/// temperature and disk space modules.
pub fn tabulate(lines: &Vec<String>, suffix: &str) -> (res: String)
    requires
        listable(string_views(lines@)),
    ensures
        res@ == tabulated(
            string_views(lines@),
            max_byte_len(string_views(lines@)),
            suffix@,
        ),
{
    let ghost ls = string_views(lines@);
    proof {
        lemma_max_byte_len(ls);
    }
    let mut width: usize = 0;
    let mut i: usize = 0;
    while i < lines.len()
        invariant
            i <= lines.len(),
            ls == string_views(lines@),
            listable(ls),
            width == max_byte_len(ls.take(i as int)),
        decreases lines.len() - i,
    {
        assert(ls.take(i + 1).drop_last() == ls.take(i as int));
        assert(ls[i as int] == lines@[i as int]@);
        let len = lines[i].as_str().len();
        if len > width {
            width = len;
        }
        i += 1;
    }
    assert(ls.take(lines.len() as int) == ls);
    let mut out = String::new();
    let mut k: usize = 0;
    while k < lines.len()
        invariant
            k <= lines.len(),
            ls == string_views(lines@),
            listable(ls),
            width == max_byte_len(ls),
            forall|j: int| 0 <= j < ls.len() ==> byte_len(#[trigger] ls[j]) <= max_byte_len(ls),
            out@ == tabulated(ls.take(k as int), width as nat, suffix@),
        decreases lines.len() - k,
    {
        assert(ls.take(k + 1).drop_last() == ls.take(k as int));
        assert(ls[k as int] == lines@[k as int]@);
        let line = lines[k].as_str();
        let len = line.len();
        proof {
            lemma_byte_len_bounds(ls[k as int]);
        }
        let mut pad = String::new();
        push_repeated(&mut pad, " ", width - (len - 1));
        assert(" "@ == seq![' ']) by {
            reveal_strlit(" ");
        }
        push_replaced(&mut out, line, '-', pad.as_str());
        out.append(suffix);
        k += 1;
    }
    assert(ls.take(lines.len() as int) == ls);
    out
}

/// One line of the CPU listing: `NAME-USAGE`, as `format!("{}-{}", name, usage)` writes it.
pub fn core_usage_line(name: &str, usage: i32) -> (res: String)
    ensures
        res@ == name@ + seq!['-'] + signed_decimal(usage as int),
{
    let mut s = String::new();
    s.append(name);
    s.append("-");
    s.append(format_i64(usage as i64).as_str());
    assert("-"@ == seq!['-']) by {
        reveal_strlit("-");
    }
    s
}

/// One line of the temperature listing: `LABEL-TEMP°C`.
pub fn component_temp_line(label: &str, temp: i32) -> (res: String)
    ensures
        res@ == label@ + seq!['-'] + signed_decimal(temp as int) + "°C"@,
{
    let mut s = String::new();
    s.append(label);
    s.append("-");
    s.append(format_i64(temp as i64).as_str());
    s.append("°C");
    assert("-"@ == seq!['-']) by {
        reveal_strlit("-");
    }
    s
}

/// One line of the disk space listing: `NAME-AVAILABLE-TOTAL`.
pub fn disk_space_line(name: &str, available: u64, total: u64) -> (res: String)
    ensures
        res@ == name@ + seq!['-'] + decimal(available as nat) + seq!['-'] + decimal(total as nat),
{
    let mut s = String::new();
    s.append(name);
    s.append("-");
    s.append(format_u64(available).as_str());
    s.append("-");
    s.append(format_u64(total).as_str());
    assert("-"@ == seq!['-']) by {
        reveal_strlit("-");
    }
    s
}

/// The listing lines up: a line with a single `-` comes out exactly as many
/// bytes long as the widest line, its `-` widened to make up the difference.
pub proof fn lemma_tab_line_width(line: Seq<char>, width: nat)
    requires
        count_char(line, '-') == 1,
        byte_len(line) <= width,
    ensures
        byte_len(tab_line(line, width)) == width,
{
    let n = (width - (byte_len(line) - 1)) as nat;
    lemma_replace_once_byte_len(line, '-', repeat(seq![' '], n));
    lemma_byte_len_spaces(n);
}

} // verus!
