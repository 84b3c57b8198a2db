//! Character-level string helpers with exact contracts: decimal formatting,
//! whitespace, repetition and character replacement.

use vstd::prelude::*;
use vstd::utf8::encode_utf8;

verus! {

/// Appends one character to a string. The body is std's `String::push`, which
/// adds `c` at the end of the string and changes nothing else.
#[verifier::external_body]
pub(crate) fn push_char(s: &mut String, c: char)
    ensures
        final(s)@ == old(s)@.push(c),
{
    s.push(c);
}

/// The characters of a string slice, in order.
pub fn chars_of(s: &str) -> (res: Vec<char>)
    ensures
        res@ == s@,
{
    broadcast use vstd::string::group_string_axioms;

    let mut v: Vec<char> = Vec::new();
    for c in it: s.chars()
        invariant
            it.seq() == s@,
            v@ == it.seq().take(it.index()),
    {
        v.push(c);
    }
    v
}

/// A string made of the given characters, in order.
pub fn string_from_chars(chars: &Vec<char>) -> (res: String)
    ensures
        res@ == chars@,
{
    let mut s = String::new();
    let mut i: usize = 0;
    while i < chars.len()
        invariant
            i <= chars.len(),
            s@ == chars@.take(i as int),
        decreases chars.len() - i,
    {
        push_char(&mut s, chars[i]);
        i += 1;
    }
    s
}

/// The character of a decimal digit.
pub open spec fn digit(d: int) -> char {
    if d == 0 {
        '0'
    } else if d == 1 {
        '1'
    } else if d == 2 {
        '2'
    } else if d == 3 {
        '3'
    } else if d == 4 {
        '4'
    } else if d == 5 {
        '5'
    } else if d == 6 {
        '6'
    } else if d == 7 {
        '7'
    } else if d == 8 {
        '8'
    } else {
        '9'
    }
}

/// The decimal notation of a natural number, without leading zeros.
pub open spec fn decimal(n: nat) -> Seq<char>
    decreases n,
{
    if n < 10 {
        seq![digit(n as int)]
    } else {
        decimal(n / 10).push(digit((n % 10) as int))
    }
}

/// The decimal notation of an integer: a minus sign before negative numbers.
pub open spec fn signed_decimal(n: int) -> Seq<char> {
    if n < 0 {
        seq!['-'] + decimal((-n) as nat)
    } else {
        decimal(n as nat)
    }
}

fn digit_char(d: u64) -> (c: char)
    requires
        d < 10,
    ensures
        c == digit(d as int),
{
    if d == 0 {
        '0'
    } else if d == 1 {
        '1'
    } else if d == 2 {
        '2'
    } else if d == 3 {
        '3'
    } else if d == 4 {
        '4'
    } else if d == 5 {
        '5'
    } else if d == 6 {
        '6'
    } else if d == 7 {
        '7'
    } else if d == 8 {
        '8'
    } else {
        '9'
    }
}

/// The decimal notation of `n`, as `format!("{}", n)` writes it.
pub fn format_u64(n: u64) -> (s: String)
    ensures
        s@ == decimal(n as nat),
    decreases n,
{
    if n < 10 {
        let mut s = String::new();
        push_char(&mut s, digit_char(n));
        s
    } else {
        let mut s = format_u64(n / 10);
        push_char(&mut s, digit_char(n % 10));
        s
    }
}

/// The decimal notation of `n`, as `format!("{}", n)` writes it.
pub fn format_i64(n: i64) -> (s: String)
    ensures
        s@ == signed_decimal(n as int),
{
    if n < 0 {
        let m: u64 = ((-(n + 1)) as u64) + 1;
        let digits = format_u64(m);
        let mut s = String::new();
        push_char(&mut s, '-');
        s.append(digits.as_str());
        s
    } else {
        format_u64(n as u64)
    }
}

/// `part` occurs in `s`: `s` is some text, then `part`, then some more text.
pub open spec fn occurs_in(part: Seq<char>, s: Seq<char>) -> bool {
    exists|pre: Seq<char>, post: Seq<char>| #[trigger] (pre + part + post) == s
}

/// The Unicode `White_Space` property, which `char::is_whitespace` tests.
pub open spec fn is_whitespace(c: char) -> bool {
    let u = c as u32;
    ||| 0x09 <= u <= 0x0d
    ||| u == 0x20
    ||| u == 0x85
    ||| u == 0xa0
    ||| u == 0x1680
    ||| 0x2000 <= u <= 0x200a
    ||| u == 0x2028
    ||| u == 0x2029
    ||| u == 0x202f
    ||| u == 0x205f
    ||| u == 0x3000
}

/// Whether `c` is white space in the sense of `char::is_whitespace`.
pub fn is_whitespace_char(c: char) -> (b: bool)
    ensures
        b == is_whitespace(c),
{
    let u = c as u32;
    (0x09 <= u && u <= 0x0d) || u == 0x20 || u == 0x85 || u == 0xa0 || u == 0x1680 || (0x2000
        <= u && u <= 0x200a) || u == 0x2028 || u == 0x2029 || u == 0x202f || u == 0x205f || u
        == 0x3000
}

/// `s` repeated `n` times, one copy after the other.
pub open spec fn repeat(s: Seq<char>, n: nat) -> Seq<char>
    decreases n,
{
    if n == 0 {
        seq![]
    } else {
        repeat(s, (n - 1) as nat) + s
    }
}

/// `n` copies of `s` hold `n` times as many characters.
pub proof fn lemma_repeat_len(s: Seq<char>, n: nat)
    ensures
        repeat(s, n).len() == n * s.len(),
        s.len() == 1 ==> repeat(s, n).len() == n,
    decreases n,
{
    if n > 0 {
        lemma_repeat_len(s, (n - 1) as nat);
        assert(n * s.len() == (n - 1) * s.len() + s.len()) by (nonlinear_arith);
    } else {
        assert(n * s.len() == 0) by (nonlinear_arith)
            requires
                n == 0,
        ;
    }
    assert(s.len() == 1 ==> n * s.len() == n) by (nonlinear_arith);
}

/// Appends `n` copies of `piece` to `out`: what `out.push_str(&piece.repeat(n))` does.
pub fn push_repeated(out: &mut String, piece: &str, n: usize)
    ensures
        final(out)@ == old(out)@ + repeat(piece@, n as nat),
{
    let mut i: usize = 0;
    while i < n
        invariant
            i <= n,
            out@ == old(out)@ + repeat(piece@, i as nat),
        decreases n - i,
    {
        out.append(piece);
        i += 1;
        assert(out@ == old(out)@ + repeat(piece@, i as nat));
    }
}

/// `s` with every occurrence of the character `from` replaced by `to`, as
/// `str::replace` does with a pattern of one character.
pub open spec fn replace_char(s: Seq<char>, from: char, to: Seq<char>) -> Seq<char>
    decreases s.len(),
{
    if s.len() == 0 {
        seq![]
    } else {
        replace_char(s.drop_last(), from, to) + if s.last() == from {
            to
        } else {
            seq![s.last()]
        }
    }
}

/// Appends `s` to `out` with every `from` replaced by `to`.
pub fn push_replaced(out: &mut String, s: &str, from: char, to: &str)
    ensures
        final(out)@ == old(out)@ + replace_char(s@, from, to@),
{
    let chars = chars_of(s);
    let mut i: usize = 0;
    while i < chars.len()
        invariant
            i <= chars.len(),
            chars@ == s@,
            out@ == old(out)@ + replace_char(s@.take(i as int), from, to@),
        decreases chars.len() - i,
    {
        let c = chars[i];
        assert(s@.take(i + 1).drop_last() == s@.take(i as int));
        if c == from {
            out.append(to);
        } else {
            push_char(out, c);
        }
        i += 1;
    }
    assert(s@.take(chars.len() as int) == s@);
}

/// `s` without its trailing white space, as `str::trim_end` gives it.
pub open spec fn trim_end(s: Seq<char>) -> Seq<char>
    decreases s.len(),
{
    if s.len() > 0 && is_whitespace(s.last()) {
        trim_end(s.drop_last())
    } else {
        s
    }
}

/// The length of `chars` once its trailing white space is cut off.
pub fn trimmed_len(chars: &Vec<char>) -> (k: usize)
    ensures
        k <= chars.len(),
        chars@.take(k as int) == trim_end(chars@),
{
    let mut k: usize = chars.len();
    assert(chars@.take(k as int) == chars@);
    while k > 0 && is_whitespace_char(chars[k - 1])
        invariant
            k <= chars.len(),
            trim_end(chars@.take(k as int)) == trim_end(chars@),
        decreases k,
    {
        assert(chars@.take(k as int).drop_last() == chars@.take(k - 1));
        k -= 1;
    }
    k
}

/// Whether two string slices hold the same characters: `a == b` on `&str`.
pub fn str_eq(a: &str, b: &str) -> (res: bool)
    ensures
        res == (a@ == b@),
{
    let ca = chars_of(a);
    let cb = chars_of(b);
    if ca.len() != cb.len() {
        return false;
    }
    let mut i: usize = 0;
    while i < ca.len()
        invariant
            i <= ca.len(),
            ca.len() == cb.len(),
            ca@ == a@,
            cb@ == b@,
            forall|j: int| 0 <= j < i ==> ca@[j] == cb@[j],
        decreases ca.len() - i,
    {
        if ca[i] != cb[i] {
            return false;
        }
        i += 1;
    }
    assert(ca@ == cb@);
    true
}

/// The characters of each string of a sequence.
pub open spec fn string_views(v: Seq<String>) -> Seq<Seq<char>> {
    v.map_values(|s: String| s@)
}

/// The words found so far when reading `s` from the left, and the word being
/// read at its end (empty after white space).
pub open spec fn scan_words(s: Seq<char>) -> (Seq<Seq<char>>, Seq<char>)
    decreases s.len(),
{
    if s.len() == 0 {
        (seq![], seq![])
    } else {
        let (done, cur) = scan_words(s.drop_last());
        let c = s.last();
        if is_whitespace(c) {
            (
                if cur.len() > 0 {
                    done.push(cur)
                } else {
                    done
                },
                seq![],
            )
        } else {
            (done, cur.push(c))
        }
    }
}

/// The words of `s`, as `str::split_whitespace` yields them: the maximal runs
/// of characters that are not white space, in order.
pub open spec fn words(s: Seq<char>) -> Seq<Seq<char>> {
    let (done, cur) = scan_words(s);
    if cur.len() > 0 {
        done.push(cur)
    } else {
        done
    }
}

/// No word is longer than the text it comes from, and none is empty or holds white space.
pub proof fn lemma_words_shape(s: Seq<char>)
    ensures
        forall|i: int|
            0 <= i < words(s).len() ==> 0 < #[trigger] words(s)[i].len() <= s.len() && forall|
                j: int,
            |
                0 <= j < words(s)[i].len() ==> !is_whitespace(#[trigger] words(s)[i][j]),
    decreases s.len(),
{
    lemma_scan_shape(s);
}

proof fn lemma_scan_shape(s: Seq<char>)
    ensures
        forall|i: int|
            0 <= i < scan_words(s).0.len() ==> 0 < #[trigger] scan_words(s).0[i].len() <= s.len()
                && forall|j: int|
                0 <= j < scan_words(s).0[i].len() ==> !is_whitespace(
                    #[trigger] scan_words(s).0[i][j],
                ),
        scan_words(s).1.len() <= s.len(),
        forall|j: int|
            0 <= j < scan_words(s).1.len() ==> !is_whitespace(#[trigger] scan_words(s).1[j]),
    decreases s.len(),
{
    if s.len() > 0 {
        lemma_scan_shape(s.drop_last());
    }
}

/// The words of `s`, as `s.split_whitespace()` yields them.
pub fn split_words(s: &str) -> (res: Vec<String>)
    ensures
        string_views(res@) == words(s@),
{
    let chars = chars_of(s);
    let mut done: Vec<String> = Vec::new();
    let mut cur: Vec<char> = Vec::new();
    let mut i: usize = 0;
    while i < chars.len()
        invariant
            i <= chars.len(),
            chars@ == s@,
            string_views(done@) == scan_words(s@.take(i as int)).0,
            cur@ == scan_words(s@.take(i as int)).1,
        decreases chars.len() - i,
    {
        let c = chars[i];
        assert(s@.take(i + 1).drop_last() == s@.take(i as int));
        if is_whitespace_char(c) {
            if cur.len() > 0 {
                let w = string_from_chars(&cur);
                done.push(w);
                cur = Vec::new();
            } else {
                cur = Vec::new();
            }
        } else {
            cur.push(c);
        }
        i += 1;
    }
    assert(s@.take(chars.len() as int) == s@);
    if cur.len() > 0 {
        let w = string_from_chars(&cur);
        done.push(w);
    }
    done
}

/// The value of a string of decimal digits.
pub open spec fn digits_value(s: Seq<char>) -> int
    decreases s.len(),
{
    if s.len() == 0 {
        0
    } else {
        10 * digits_value(s.drop_last()) + (s.last() as int - '0' as int)
    }
}

/// Every character is an ASCII digit.
pub open spec fn all_digits(s: Seq<char>) -> bool {
    forall|i: int| 0 <= i < s.len() ==> '0' <= #[trigger] s[i] <= '9'
}

/// What `s.parse::<i32>()` gives: an optional `+` or `-` sign followed by at
/// least one ASCII digit, whose value fits in an `i32`.
pub open spec fn parse_i32_spec(s: Seq<char>) -> Option<i32> {
    let neg = s.len() > 0 && s[0] == '-';
    let body = if s.len() > 0 && (s[0] == '-' || s[0] == '+') {
        s.drop_first()
    } else {
        s
    };
    let v = if neg {
        -digits_value(body)
    } else {
        digits_value(body)
    };
    if body.len() == 0 || !all_digits(body) || v < i32::MIN || v > i32::MAX {
        None
    } else {
        Some(v as i32)
    }
}

proof fn lemma_digits_value_nonneg(s: Seq<char>)
    requires
        all_digits(s),
    ensures
        digits_value(s) >= 0,
    decreases s.len(),
{
    if s.len() > 0 {
        assert(all_digits(s.drop_last())) by {
            assert forall|i: int| 0 <= i < s.drop_last().len() implies '0' <= #[trigger] s.drop_last()[i] <= '9' by {
                assert(s.drop_last()[i] == s[i]);
            }
        }
        lemma_digits_value_nonneg(s.drop_last());
        assert('0' <= s[s.len() - 1] <= '9');
    }
}

/// Parses an `i32` as `str::parse::<i32>` does: `None` exactly where it fails.
pub fn parse_i32(s: &str) -> (res: Option<i32>)
    ensures
        res == parse_i32_spec(s@),
{
    let chars = chars_of(s);
    let n = chars.len();
    let neg = n > 0 && chars[0] == '-';
    let start: usize = if n > 0 && (chars[0] == '-' || chars[0] == '+') {
        1
    } else {
        0
    };
    let ghost body = if s@.len() > 0 && (s@[0] == '-' || s@[0] == '+') {
        s@.drop_first()
    } else {
        s@
    };
    assert(body == s@.subrange(start as int, n as int));
    if start == n {
        return None;
    }
    let mut acc: i64 = 0;
    let mut big = false;
    let mut i: usize = start;
    while i < n
        invariant
            start <= i <= n,
            n == chars.len(),
            chars@ == s@,
            body == s@.subrange(start as int, n as int),
            body == if s@.len() > 0 && (s@[0] == '-' || s@[0] == '+') {
                s@.drop_first()
            } else {
                s@
            },
            all_digits(s@.subrange(start as int, i as int)),
            !big ==> acc == digits_value(s@.subrange(start as int, i as int)) && 0 <= acc
                <= 2147483648,
            big ==> digits_value(s@.subrange(start as int, i as int)) > 2147483648,
        decreases n - i,
    {
        let c = chars[i];
        let ghost prefix = s@.subrange(start as int, i as int);
        assert(s@.subrange(start as int, i + 1) == prefix.push(c));
        assert(s@.subrange(start as int, i + 1).drop_last() == prefix);
        if c < '0' || c > '9' {
            assert(!all_digits(body)) by {
                assert(body[i - start] == c);
            }
            return None;
        }
        let d = (c as u32 - '0' as u32) as i64;
        proof {
            assert(all_digits(s@.subrange(start as int, i + 1))) by {
                assert forall|k: int| 0 <= k < i + 1 - start implies '0' <= #[trigger] s@.subrange(start as int, i + 1)[k] <= '9' by {
                    if k < i - start {
                        assert(s@.subrange(start as int, i + 1)[k] == prefix[k]);
                    }
                }
            }
            lemma_digits_value_nonneg(prefix);
        }
        if !big {
            let next = acc * 10 + d;
            if next > 2147483648 {
                big = true;
            } else {
                acc = next;
            }
        }
        i += 1;
    }
    assert(s@.subrange(start as int, n as int) == body);
    if big {
        return None;
    }
    if neg {
        if acc > 2147483648 {
            None
        } else {
            Some((-acc) as i32)
        }
    } else {
        if acc > 2147483647 {
            None
        } else {
            Some(acc as i32)
        }
    }
}

/// The length in bytes of the UTF-8 encoding of `s`: what `str::len` returns.
pub open spec fn byte_len(s: Seq<char>) -> nat {
    encode_utf8(s).len()
}

/// Every character takes one to four bytes.
pub proof fn lemma_byte_len_bounds(s: Seq<char>)
    ensures
        s.len() <= byte_len(s) <= 4 * s.len(),
    decreases s.len(),
{
    if s.len() > 0 {
        lemma_byte_len_bounds(s.drop_first());
        let e = vstd::utf8::encode_scalar(s[0] as u32);
        assert(1 <= e.len() <= 4);
    }
}

/// The encoding of two texts one after the other is as long as both encodings.
pub proof fn lemma_byte_len_concat(a: Seq<char>, b: Seq<char>)
    ensures
        byte_len(a + b) == byte_len(a) + byte_len(b),
    decreases a.len(),
{
    if a.len() == 0 {
        assert(a + b == b);
    } else {
        lemma_byte_len_concat(a.drop_first(), b);
        assert((a + b).drop_first() == a.drop_first() + b);
        assert((a + b)[0] == a[0]);
    }
}

/// An ASCII character takes one byte.
pub proof fn lemma_byte_len_ascii(c: char)
    requires
        (c as u32) < 0x80,
    ensures
        byte_len(seq![c]) == 1,
{
    let e = seq![c];
    assert(e[0] == c);
    assert(e.drop_first() == Seq::<char>::empty());
    assert(encode_utf8(Seq::<char>::empty()).len() == 0);
    assert(vstd::utf8::encode_scalar(c as u32).len() == 1);
}

/// `n` spaces take `n` bytes.
pub proof fn lemma_byte_len_spaces(n: nat)
    ensures
        byte_len(repeat(seq![' '], n)) == n,
    decreases n,
{
    if n > 0 {
        lemma_byte_len_spaces((n - 1) as nat);
        lemma_byte_len_ascii(' ');
        lemma_byte_len_concat(repeat(seq![' '], (n - 1) as nat), seq![' ']);
    } else {
        assert(repeat(seq![' '], n) == Seq::<char>::empty());
    }
}

/// The number of occurrences of `c` in `s`.
pub open spec fn count_char(s: Seq<char>, c: char) -> nat
    decreases s.len(),
{
    if s.len() == 0 {
        0
    } else {
        count_char(s.drop_last(), c) + if s.last() == c {
            1nat
        } else {
            0nat
        }
    }
}

/// Replacing a character that does not occur changes nothing.
pub proof fn lemma_replace_absent(s: Seq<char>, from: char, to: Seq<char>)
    requires
        count_char(s, from) == 0,
    ensures
        replace_char(s, from, to) == s,
    decreases s.len(),
{
    if s.len() > 0 {
        lemma_replace_absent(s.drop_last(), from, to);
        assert(s.drop_last().push(s.last()) == s);
    }
}

/// Replacing the single occurrence of an ASCII character by `to` trades its
/// one byte for the bytes of `to`.
pub proof fn lemma_replace_once_byte_len(s: Seq<char>, from: char, to: Seq<char>)
    requires
        count_char(s, from) == 1,
        (from as u32) < 0x80,
    ensures
        byte_len(replace_char(s, from, to)) == byte_len(s) - 1 + byte_len(to),
        byte_len(s) >= 1,
    decreases s.len(),
{
    let p = s.drop_last();
    assert(p + seq![s.last()] == s);
    lemma_byte_len_concat(p, seq![s.last()]);
    if s.last() == from {
        lemma_replace_absent(p, from, to);
        lemma_byte_len_ascii(from);
        lemma_byte_len_concat(p, to);
    } else {
        lemma_replace_once_byte_len(p, from, to);
        lemma_byte_len_concat(replace_char(p, from, to), seq![s.last()]);
    }
}

} // verus!
