//! Text helpers shared by the assembler and the VM translator: line
//! splitting, trimming, decimal and binary rendering and parsing, all
//! specified over character sequences.

use vstd::prelude::*;

verus! {

/// The whitespace characters the toolchain recognizes inside a line.
pub open spec fn is_ws(c: char) -> bool {
    c == ' ' || c == '\t' || c == '\r'
}

pub open spec fn is_digit(c: char) -> bool {
    48 <= c as u32 <= 57
}

/// The index of the first occurrence of `c` in `s`, or `s.len()` if there is
/// none.
pub open spec fn find_char(s: Seq<char>, c: char) -> nat
    decreases s.len(),
{
    if s.len() == 0 {
        0
    } else if s[0] == c {
        0
    } else {
        1 + find_char(s.skip(1), c)
    }
}

pub proof fn lemma_find_char(s: Seq<char>, c: char)
    ensures
        find_char(s, c) <= s.len(),
        forall|j: int| 0 <= j < find_char(s, c) ==> s[j] != c,
        find_char(s, c) < s.len() ==> s[find_char(s, c) as int] == c,
    decreases s.len(),
{
    if s.len() != 0 && s[0] != c {
        lemma_find_char(s.skip(1), c);
        assert forall|j: int| 0 <= j < find_char(s, c) implies s[j] != c by {
            if j >= 1 {
                assert(s.skip(1)[j - 1] == s[j]);
            }
        }
        if find_char(s, c) < s.len() {
            assert(s.skip(1)[find_char(s, c) - 1] == s[find_char(s, c) as int]);
        }
    }
}

/// The index of the first whitespace character in `s`, or `s.len()`.
pub open spec fn find_ws(s: Seq<char>) -> nat
    decreases s.len(),
{
    if s.len() == 0 {
        0
    } else if is_ws(s[0]) {
        0
    } else {
        1 + find_ws(s.skip(1))
    }
}

pub proof fn lemma_find_ws(s: Seq<char>)
    ensures
        find_ws(s) <= s.len(),
        forall|j: int| 0 <= j < find_ws(s) ==> !is_ws(s[j]),
        find_ws(s) < s.len() ==> is_ws(s[find_ws(s) as int]),
    decreases s.len(),
{
    if s.len() != 0 && !is_ws(s[0]) {
        lemma_find_ws(s.skip(1));
        assert forall|j: int| 0 <= j < find_ws(s) implies !is_ws(s[j]) by {
            if j >= 1 {
                assert(s.skip(1)[j - 1] == s[j]);
            }
        }
        if find_ws(s) < s.len() {
            assert(s.skip(1)[find_ws(s) - 1] == s[find_ws(s) as int]);
        }
    }
}

/// How many times `c` occurs in `s`.
pub open spec fn count_char(s: Seq<char>, c: char) -> int
    decreases s.len(),
{
    if s.len() == 0 {
        0int
    } else {
        count_char(s.drop_last(), c) + if s.last() == c {
            1int
        } else {
            0int
        }
    }
}

/// A string with no occurrence of `c` has count zero.
pub proof fn lemma_count_char_zero(s: Seq<char>, c: char)
    requires
        forall|j: int| 0 <= j < s.len() ==> s[j] != c,
    ensures
        count_char(s, c) == 0,
    decreases s.len(),
{
    if s.len() > 0 {
        lemma_count_char_zero(s.drop_last(), c);
    }
}

pub open spec fn has_char(s: Seq<char>, c: char) -> bool {
    exists|i: int| 0 <= i < s.len() && s[i] == c
}

/// A line split at a newline may still carry a carriage return; it is not
/// part of the line.
pub open spec fn strip_cr(l: Seq<char>) -> Seq<char> {
    if l.len() > 0 && l.last() == '\r' {
        l.drop_last()
    } else {
        l
    }
}

/// `s` split at every newline. The result is never empty; a trailing newline
/// contributes a final empty line.
pub open spec fn lines_of(s: Seq<char>) -> Seq<Seq<char>>
    decreases s.len(),
{
    let f = find_char(s, '\n');
    if f >= s.len() {
        seq![strip_cr(s)]
    } else {
        seq![strip_cr(s.take(f as int))] + lines_of(s.skip(f as int + 1))
    }
}

/// The number of leading whitespace characters of `s`.
pub open spec fn lead_ws(s: Seq<char>) -> nat
    decreases s.len(),
{
    if s.len() == 0 {
        0
    } else if !is_ws(s[0]) {
        0
    } else {
        1 + lead_ws(s.skip(1))
    }
}

/// The number of trailing whitespace characters of `s`.
pub open spec fn trail_ws(s: Seq<char>) -> nat
    decreases s.len(),
{
    if s.len() == 0 {
        0
    } else if !is_ws(s.last()) {
        0
    } else {
        1 + trail_ws(s.drop_last())
    }
}

pub proof fn lemma_lead_ws(s: Seq<char>)
    ensures
        lead_ws(s) <= s.len(),
        forall|j: int| 0 <= j < lead_ws(s) ==> is_ws(s[j]),
        lead_ws(s) < s.len() ==> !is_ws(s[lead_ws(s) as int]),
    decreases s.len(),
{
    if s.len() != 0 && is_ws(s[0]) {
        lemma_lead_ws(s.skip(1));
        assert forall|j: int| 0 <= j < lead_ws(s) implies is_ws(s[j]) by {
            if j >= 1 {
                assert(s.skip(1)[j - 1] == s[j]);
            }
        }
        if lead_ws(s) < s.len() {
            assert(s.skip(1)[lead_ws(s) - 1] == s[lead_ws(s) as int]);
        }
    }
}

pub proof fn lemma_trail_ws(s: Seq<char>)
    ensures
        trail_ws(s) <= s.len(),
        forall|j: int| s.len() - trail_ws(s) <= j < s.len() ==> is_ws(s[j]),
        trail_ws(s) < s.len() ==> !is_ws(s[s.len() - trail_ws(s) - 1]),
    decreases s.len(),
{
    if s.len() != 0 && is_ws(s.last()) {
        lemma_trail_ws(s.drop_last());
        assert forall|j: int| s.len() - trail_ws(s) <= j < s.len() implies is_ws(s[j]) by {
            if j < s.len() - 1 {
                assert(s.drop_last()[j] == s[j]);
            }
        }
        if trail_ws(s) < s.len() {
            assert(s.drop_last()[s.len() - trail_ws(s) - 1] == s[s.len() - trail_ws(s) - 1]);
        }
    }
}

/// `s` with leading and trailing whitespace removed.
pub open spec fn trim_seq(s: Seq<char>) -> Seq<char> {
    if lead_ws(s) >= s.len() {
        Seq::empty()
    } else {
        s.subrange(lead_ws(s) as int, s.len() - trail_ws(s))
    }
}

/// The decimal value of a digit string, folded from the most significant
/// digit.
pub open spec fn dec_val(s: Seq<char>) -> int
    decreases s.len(),
{
    if s.len() == 0 {
        0int
    } else {
        dec_val(s.drop_last()) * 10 + (s.last() as u32 - 48)
    }
}

pub open spec fn is_dec(s: Seq<char>) -> bool {
    s.len() > 0 && forall|i: int| 0 <= i < s.len() ==> is_digit(#[trigger] s[i])
}

/// Whether `s` is what `u16` parsing accepts: all digits, value in range.
pub open spec fn u16_parses(s: Seq<char>) -> bool {
    is_dec(s) && dec_val(s) <= 65535
}

pub proof fn lemma_dec_val_bounds(s: Seq<char>)
    requires
        forall|i: int| 0 <= i < s.len() ==> is_digit(#[trigger] s[i]),
    ensures
        dec_val(s) >= 0,
        forall|i: int|
            0 <= i <= s.len() ==> dec_val(#[trigger] s.take(i)) >= 0 && dec_val(s) >= dec_val(
                s.take(i),
            ),
    decreases s.len(),
{
    if s.len() > 0 {
        lemma_dec_val_bounds(s.drop_last());
        assert forall|i: int| 0 <= i <= s.len() implies dec_val(#[trigger] s.take(i)) >= 0
            && dec_val(s) >= dec_val(s.take(i)) by {
            if i < s.len() {
                assert(s.take(i) =~= s.drop_last().take(i));
            } else {
                assert(s.take(i) =~= s);
            }
        }
    }
}

/// The character of one decimal digit.
pub open spec fn digit_char(d: int) -> char {
    if d == 0 {
        '0'
    } else if d == 1 {
        '1'
    } else if d == 2 {
        '2'
    } else if d == 3 {
        '3'
    } else if d == 4 {
        '4'
    } else if d == 5 {
        '5'
    } else if d == 6 {
        '6'
    } else if d == 7 {
        '7'
    } else if d == 8 {
        '8'
    } else {
        '9'
    }
}

/// The decimal rendering of `n`, without leading zeros.
pub open spec fn dec_seq(n: nat) -> Seq<char>
    decreases n,
{
    if n < 10 {
        seq![digit_char(n as int)]
    } else {
        dec_seq(n / 10).push(digit_char((n % 10) as int))
    }
}

/// Decimal rendering round-trips with decimal evaluation.
pub proof fn lemma_dec_seq_val(n: nat)
    ensures
        dec_val(dec_seq(n)) == n,
    decreases n,
{
    assert('0' as u32 == 48 && '1' as u32 == 49 && '2' as u32 == 50 && '3' as u32 == 51 && '4'
        as u32 == 52 && '5' as u32 == 53 && '6' as u32 == 54 && '7' as u32 == 55 && '8' as u32
        == 56 && '9' as u32 == 57);
    assert(dec_val(Seq::<char>::empty()) == 0);
    if n < 10 {
        assert(dec_seq(n).drop_last() =~= Seq::<char>::empty());
        assert(dec_seq(n).last() == digit_char(n as int));
    } else {
        lemma_dec_seq_val(n / 10);
        assert(dec_seq(n).drop_last() =~= dec_seq(n / 10));
        assert(dec_seq(n).last() == digit_char((n % 10) as int));
        assert((n / 10) * 10 + n % 10 == n) by (nonlinear_arith);
    }
}

/// Two distinct numbers render to distinct digit strings.
pub proof fn lemma_dec_seq_injective(m: nat, n: nat)
    requires
        dec_seq(m) == dec_seq(n),
    ensures
        m == n,
{
    lemma_dec_seq_val(m);
    lemma_dec_seq_val(n);
}

/// The 16-character binary rendering of a word, most significant bit first.
pub open spec fn bin_seq(w: u16) -> Seq<char> {
    Seq::new(
        16,
        |i: int|
            if crate::gates::bit16(w, (15 - i) as u16) {
                '1'
            } else {
                '0'
            },
    )
}

/// The value of a binary digit string, folded from the most significant bit.
pub open spec fn bin_val(s: Seq<char>) -> int
    decreases s.len(),
{
    if s.len() == 0 {
        0int
    } else {
        bin_val(s.drop_last()) * 2 + if s.last() == '1' {
            1int
        } else {
            0int
        }
    }
}

pub open spec fn is_bin16(s: Seq<char>) -> bool {
    s.len() == 16 && forall|i: int| 0 <= i < 16 ==> s[i] == '0' || s[i] == '1'
}

proof fn lemma_bin_seq_val_prefix(w: u16, k: int)
    requires
        0 <= k <= 16,
    ensures
        bin_val(bin_seq(w).take(k)) == ((w as u32) >> ((16 - k) as u32)),
    decreases k,
{
    let w32 = w as u32;
    if k == 0 {
        assert(bin_seq(w).take(0) =~= Seq::<char>::empty());
        assert((w32 >> 16u32) == 0) by (bit_vector)
            requires
                w32 < 0x10000,
        ;
    } else {
        lemma_bin_seq_val_prefix(w, k - 1);
        let j = (16 - k) as u32;
        assert(bin_seq(w).take(k).drop_last() =~= bin_seq(w).take(k - 1));
        assert(bin_seq(w).take(k).last() == bin_seq(w)[k - 1]);
        assert((w32 >> ((j + 1) as u32)) * 2 + (if ((w >> (j as u16)) & 1) == 1 {
            1int
        } else {
            0int
        }) == (w32 >> j)) by (bit_vector)
            requires
                j < 16,
                w32 == w as u32,
        ;
    }
}

/// Rendering a word in binary and evaluating the digits gives the word back.
pub proof fn lemma_bin_seq_val(w: u16)
    ensures
        is_bin16(bin_seq(w)),
        bin_val(bin_seq(w)) == w,
{
    lemma_bin_seq_val_prefix(w, 16);
    assert(bin_seq(w).take(16) =~= bin_seq(w));
    assert(((w as u32) >> 0u32) == w as u32) by (bit_vector);
}

fn ws_at(s: &str, i: usize) -> (r: bool)
    requires
        i < s@.len(),
    ensures
        r == is_ws(s@[i as int]),
{
    let c = s.get_char(i);
    c == ' ' || c == '\t' || c == '\r'
}

/// `s` split at whitespace runs into its non-empty tokens.
pub open spec fn tokens_of(s: Seq<char>) -> Seq<Seq<char>>
    decreases s.len(),
    via tokens_of_decreases
{
    if s.len() == 0 {
        Seq::empty()
    } else if is_ws(s[0]) {
        tokens_of(s.skip(1))
    } else {
        let e = find_ws(s);
        seq![s.take(e as int)] + tokens_of(s.skip(e as int))
    }
}

#[via_fn]
proof fn tokens_of_decreases(s: Seq<char>) {
    if s.len() != 0 && !is_ws(s[0]) {
        lemma_find_ws(s);
        assert(find_ws(s) >= 1);
    }
}

/// `s` split at whitespace runs.
pub fn split_tokens(s: &str) -> (r: Vec<String>)
    ensures
        r@.map_values(|t: String| t@) == tokens_of(s@),
{
    let n = s.unicode_len();
    let mut out: Vec<String> = Vec::new();
    let mut pos: usize = 0;
    proof {
        assert(s@.skip(0) =~= s@);
    }
    while pos < n
        invariant
            pos <= n,
            n == s@.len(),
            tokens_of(s@) =~= out@.map_values(|t: String| t@) + tokens_of(s@.skip(pos as int)),
        decreases n - pos,
    {
        let ghost rest = s@.skip(pos as int);
        if ws_at(s, pos) {
            proof {
                assert(rest.skip(1) =~= s@.skip(pos as int + 1));
            }
            pos = pos + 1;
        } else {
            let mut end: usize = pos + 1;
            while end < n && !ws_at(s, end)
                invariant
                    pos < end <= n,
                    n == s@.len(),
                    forall|j: int| pos <= j < end ==> !is_ws(s@[j]),
                decreases n - end,
            {
                end = end + 1;
            }
            proof {
                lemma_find_ws(rest);
                let f = find_ws(rest) as int;
                if f < end - pos {
                    assert(rest[f] == s@[pos + f]);
                    assert(false);
                }
                if f > end - pos {
                    assert(rest[end - pos] == s@[end as int]);
                    assert(false);
                }
                assert(rest.take((end - pos) as int) =~= s@.subrange(pos as int, end as int));
                assert(rest.skip((end - pos) as int) =~= s@.skip(end as int));
            }
            let tok = s.substring_char(pos, end);
            out.push(tok.to_owned());
            pos = end;
        }
    }
    proof {
        assert(s@.skip(n as int) =~= Seq::<char>::empty());
        assert(tokens_of(s@) =~= out@.map_values(|t: String| t@));
    }
    out
}

/// Character-for-character string equality.
pub fn str_eq(a: &str, b: &str) -> (r: bool)
    ensures
        r == (a@ == b@),
{
    let na = a.unicode_len();
    let nb = b.unicode_len();
    if na != nb {
        return false;
    }
    let mut i: usize = 0;
    while i < na
        invariant
            i <= na,
            na == a@.len(),
            na == b@.len(),
            forall|j: int| 0 <= j < i ==> a@[j] == b@[j],
        decreases na - i,
    {
        if a.get_char(i) != b.get_char(i) {
            return false;
        }
        i = i + 1;
    }
    proof {
        assert(a@ =~= b@);
    }
    true
}

/// `s` with leading and trailing whitespace removed.
pub fn trim_str<'a>(s: &'a str) -> (r: &'a str)
    ensures
        r@ == trim_seq(s@),
{
    proof {
        lemma_lead_ws(s@);
        lemma_trail_ws(s@);
    }
    let n = s.unicode_len();
    let mut lo: usize = 0;
    while lo < n && ws_at(s, lo)
        invariant
            lo <= n,
            n == s@.len(),
            forall|j: int| 0 <= j < lo ==> is_ws(s@[j]),
        decreases n - lo,
    {
        lo = lo + 1;
    }
    if lo == n {
        proof {
            assert(lead_ws(s@) >= n);
        }
        return s.substring_char(0, 0);
    }
    proof {
        assert(!is_ws(s@[lo as int]));
        assert(lead_ws(s@) == lo);
    }
    let mut hi: usize = n;
    while ws_at(s, hi - 1)
        invariant
            lo < hi <= n,
            n == s@.len(),
            forall|j: int| 0 <= j < lo ==> is_ws(s@[j]),
            !is_ws(s@[lo as int]),
            forall|j: int| hi <= j < n ==> is_ws(s@[j]),
        decreases hi,
    {
        hi = hi - 1;
    }
    proof {
        assert(!is_ws(s@[hi - 1]));
        assert(trail_ws(s@) == n - hi);
    }
    s.substring_char(lo, hi)
}

/// `s` split at every newline, with a carriage return before the newline
/// dropped.
pub fn split_lines(s: &str) -> (r: Vec<String>)
    ensures
        r@.map_values(|l: String| l@) == lines_of(s@),
{
    let n = s.unicode_len();
    let mut out: Vec<String> = Vec::new();
    let mut pos: usize = 0;
    proof {
        assert(s@.skip(0) =~= s@);
    }
    while pos < n
        invariant
            pos <= n,
            n == s@.len(),
            lines_of(s@) =~= out@.map_values(|l: String| l@) + lines_of(s@.skip(pos as int)),
            pos > 0 ==> s@[pos - 1] == '\n',
        decreases n - pos,
    {
        let ghost rest = s@.skip(pos as int);
        let mut end: usize = pos;
        while end < n && s.get_char(end) != '\n'
            invariant
                pos <= end <= n,
                n == s@.len(),
                forall|j: int| pos <= j < end ==> s@[j] != '\n',
            decreases n - end,
        {
            end = end + 1;
        }
        proof {
            lemma_find_char(rest, '\n');
            let f = find_char(rest, '\n') as int;
            if f < end - pos {
                assert(rest[f] == s@[pos + f]);
                assert(false);
            }
            if f > end - pos {
                assert(rest[end - pos] == s@[end as int]);
                assert(false);
            }
            assert(find_char(rest, '\n') == end - pos);
        }
        let line = if end > pos && s.get_char(end - 1) == '\r' {
            s.substring_char(pos, end - 1)
        } else {
            s.substring_char(pos, end)
        };
        proof {
            assert(rest.take((end - pos) as int) =~= s@.subrange(pos as int, end as int));
            if end > pos && s@[end - 1] == '\r' {
                assert(strip_cr(rest.take((end - pos) as int)) =~= s@.subrange(
                    pos as int,
                    end - 1,
                ));
            } else {
                assert(strip_cr(rest.take((end - pos) as int)) =~= s@.subrange(
                    pos as int,
                    end as int,
                ));
            }
        }
        out.push(line.to_owned());
        if end < n {
            proof {
                assert(rest.skip((end - pos) as int + 1) =~= s@.skip(end as int + 1));
            }
            pos = end + 1;
        } else {
            proof {
                assert(lines_of(rest) =~= seq![strip_cr(rest)]);
                assert(rest.take((end - pos) as int) =~= rest);
            }
            pos = end;
            assert(lines_of(s@) =~= out@.map_values(|l: String| l@));
            return out;
        }
    }
    // The input is empty or ends with a newline: one final empty line.
    proof {
        let rest = s@.skip(pos as int);
        assert(rest =~= Seq::<char>::empty());
        assert(lines_of(rest) =~= seq![Seq::<char>::empty()]);
    }
    let last = s.substring_char(pos, pos);
    out.push(last.to_owned());
    proof {
        assert(lines_of(s@) =~= out@.map_values(|l: String| l@));
    }
    out
}

/// Whether `c` occurs in `s`.
pub fn contains_char(s: &str, c: char) -> (r: bool)
    ensures
        r == has_char(s@, c),
{
    let n = s.unicode_len();
    let mut i: usize = 0;
    while i < n
        invariant
            i <= n,
            n == s@.len(),
            forall|j: int| 0 <= j < i ==> s@[j] != c,
        decreases n - i,
    {
        if s.get_char(i) == c {
            return true;
        }
        i = i + 1;
    }
    false
}

/// Decimal parsing as `u16`: accepts exactly the all-digit strings whose
/// value fits.
pub fn parse_u16(s: &str) -> (r: Option<u16>)
    ensures
        r == if u16_parses(s@) {
            Some(dec_val(s@) as u16)
        } else {
            None::<u16>
        },
{
    let n = s.unicode_len();
    if n == 0 {
        return None;
    }
    let mut acc: u32 = 0;
    let mut i: usize = 0;
    while i < n
        invariant
            i <= n,
            n == s@.len(),
            n > 0,
            forall|j: int| 0 <= j < i ==> is_digit(#[trigger] s@[j]),
            acc == dec_val(s@.take(i as int)),
            acc <= 65535,
        decreases n - i,
    {
        let c = s.get_char(i);
        let cv = c as u32;
        if cv < 48 || cv > 57 {
            return None;
        }
        let d: u32 = cv - 48;
        let next: u32 = acc * 10 + d;
        proof {
            assert(s@.take(i as int + 1).drop_last() =~= s@.take(i as int));
        }
        if next > 65535 {
            proof {
                if is_dec(s@) {
                    lemma_dec_val_bounds(s@);
                }
            }
            return None;
        }
        acc = next;
        i = i + 1;
    }
    proof {
        assert(s@.take(n as int) =~= s@);
    }
    Some(acc as u16)
}

fn digit_str(d: u16) -> (r: &'static str)
    requires
        d < 10,
    ensures
        r@ == seq![digit_char(d as int)],
{
    proof {
        reveal_strlit("0");
        reveal_strlit("1");
        reveal_strlit("2");
        reveal_strlit("3");
        reveal_strlit("4");
        reveal_strlit("5");
        reveal_strlit("6");
        reveal_strlit("7");
        reveal_strlit("8");
        reveal_strlit("9");
    }
    let r = match d {
        0 => "0",
        1 => "1",
        2 => "2",
        3 => "3",
        4 => "4",
        5 => "5",
        6 => "6",
        7 => "7",
        8 => "8",
        _ => "9",
    };
    proof {
        assert(r@ =~= seq![digit_char(d as int)]);
    }
    r
}

/// The decimal rendering of `n`.
pub fn dec_string(n: u16) -> (r: String)
    ensures
        r@ == dec_seq(n as nat),
    decreases n,
{
    if n < 10 {
        let r = digit_str(n).to_owned();
        proof {
            assert(r@ =~= dec_seq(n as nat));
        }
        r
    } else {
        let mut r = dec_string(n / 10);
        r.append(digit_str(n % 10));
        proof {
            assert(r@ =~= dec_seq(n as nat));
        }
        r
    }
}

/// The 16-character binary rendering of a word.
pub fn bin16_string(w: u16) -> (r: String)
    ensures
        r@ == bin_seq(w),
{
    proof {
        reveal_strlit("");
        reveal_strlit("0");
        reveal_strlit("1");
    }
    let mut r = "".to_owned();
    for i in 0..16usize
        invariant
            r@ =~= bin_seq(w).take(i as int),
    {
        proof {
            reveal_strlit("0");
            reveal_strlit("1");
        }
        if crate::gates::get_bit(w, 15 - i) {
            r.append("1");
        } else {
            r.append("0");
        }
        proof {
            assert(r@ =~= bin_seq(w).take(i as int + 1));
        }
    }
    proof {
        assert(bin_seq(w).take(16) =~= bin_seq(w));
    }
    r
}

/// Binary parsing of a 16-character 0/1 string.
pub fn parse_bin16(s: &str) -> (r: u16)
    requires
        is_bin16(s@),
    ensures
        r == bin_val(s@),
{
    let mut acc: u32 = 0;
    let mut i: usize = 0;
    proof {
        assert((1u32 << 0u32) == 1) by (bit_vector);
        assert(s@.take(0) =~= Seq::<char>::empty());
    }
    while i < 16
        invariant
            i <= 16,
            is_bin16(s@),
            acc == bin_val(s@.take(i as int)),
            acc < (1u32 << (i as u32)),
        decreases 16 - i,
    {
        let c = s.get_char(i);
        let b: u32 = if c == '1' {
            1
        } else {
            0
        };
        proof {
            assert(s@.take(i as int + 1).drop_last() =~= s@.take(i as int));
            let gi = i as u32;
            assert((1u32 << ((gi + 1) as u32)) == 2 * (1u32 << gi) && (1u32 << gi) >= 1)
                by (bit_vector)
                requires
                    gi < 16,
            ;
        }
        acc = acc * 2 + b;
        i = i + 1;
    }
    proof {
        assert(s@.take(16) =~= s@);
        assert((1u32 << 16u32) == 0x10000) by (bit_vector);
    }
    acc as u16
}

} // verus!
