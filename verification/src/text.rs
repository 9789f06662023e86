//! Verified text utilities: string equality, delimiter splitting,
//! whitespace tokenisation and the numeric token grammars shared by the
//! geometry decoder and the resource reader.

use vstd::prelude::*;
use vstd::string::*;

verus! {

/// Executable string equality with its spec meaning: the views are equal.
pub fn str_eq(a: &str, b: &str) -> (r: bool)
    ensures
        r == (a@ == b@),
{
    let x: String = a.to_owned();
    let y: String = b.to_owned();
    x == y
}

/// Index of the first occurrence of `d` in `s`, or `s.len()` if absent.
pub open spec fn sp_first_idx(s: Seq<char>, d: char) -> int
    decreases s.len(),
{
    if s.len() == 0 {
        0
    } else if s[0] == d {
        0
    } else {
        1 + sp_first_idx(s.drop_first(), d)
    }
}

pub proof fn lemma_first_idx_bounds(s: Seq<char>, d: char)
    ensures
        0 <= sp_first_idx(s, d) <= s.len(),
        sp_first_idx(s, d) < s.len() ==> s[sp_first_idx(s, d)] == d,
        forall|j: int| 0 <= j < sp_first_idx(s, d) ==> s[j] != d,
    decreases s.len(),
{
    if s.len() == 0 {
    } else if s[0] == d {
    } else {
        lemma_first_idx_bounds(s.drop_first(), d);
        assert forall|j: int| 0 <= j < sp_first_idx(s, d) implies s[j] != d by {
            if j > 0 {
                assert(s.drop_first()[j - 1] != d);
            }
        }
    }
}

pub proof fn lemma_first_idx_val(s: Seq<char>, d: char, k: int)
    requires
        0 <= k < s.len(),
        s[k] == d,
        forall|j: int| 0 <= j < k ==> s[j] != d,
    ensures
        sp_first_idx(s, d) == k,
    decreases k,
{
    if k == 0 {
    } else {
        assert(s[0] != d);
        lemma_first_idx_val(s.drop_first(), d, k - 1);
    }
}

pub proof fn lemma_first_idx_absent(s: Seq<char>, d: char)
    requires
        forall|j: int| 0 <= j < s.len() ==> s[j] != d,
    ensures
        sp_first_idx(s, d) == s.len(),
    decreases s.len(),
{
    if s.len() == 0 {
    } else {
        lemma_first_idx_absent(s.drop_first(), d);
    }
}

/// The segments of `s` delimited by `d`, in order, empty segments kept.
pub open spec fn sp_split_char(s: Seq<char>, d: char) -> Seq<Seq<char>>
    decreases s.len(),
{
    let k = sp_first_idx(s, d);
    if k >= s.len() {
        seq![s]
    } else {
        proof {
            lemma_first_idx_bounds(s, d);
        }
        seq![s.take(k)] + sp_split_char(s.skip(k + 1), d)
    }
}

proof fn lemma_split_char_step(s: Seq<char>, d: char, start: int, i: int)
    requires
        0 <= start <= i < s.len(),
        s[i] == d,
        forall|j: int| start <= j < i ==> s[j] != d,
    ensures
        sp_split_char(s.skip(start), d) == seq![s.subrange(start, i)] + sp_split_char(
            s.skip(i + 1),
            d,
        ),
{
    let t = s.skip(start);
    assert(t[i - start] == d);
    assert(forall|j: int| 0 <= j < i - start ==> t[j] != d);
    lemma_first_idx_val(t, d, i - start);
    assert(t.take(i - start) =~= s.subrange(start, i));
    assert(t.skip(i - start + 1) =~= s.skip(i + 1));
}

proof fn lemma_split_char_last(s: Seq<char>, d: char, start: int)
    requires
        0 <= start <= s.len(),
        forall|j: int| start <= j < s.len() ==> s[j] != d,
    ensures
        sp_split_char(s.skip(start), d) == seq![s.subrange(start, s.len() as int)],
{
    let t = s.skip(start);
    assert(forall|j: int| 0 <= j < t.len() ==> t[j] != d);
    lemma_first_idx_absent(t, d);
    assert(t =~= s.subrange(start, s.len() as int));
}

/// Splits `s` at every occurrence of `d`, keeping empty segments, exactly as
/// the standard single-character `split` does.
pub fn split_char(s: &str, d: char) -> (r: Vec<String>)
    ensures
        r.deep_view() == sp_split_char(s@, d),
{
    let n: usize = s.unicode_len();
    let mut out: Vec<String> = Vec::new();
    let mut start: usize = 0;
    let mut i: usize = 0;
    proof {
        assert(s@.skip(0) =~= s@);
        assert(out.deep_view() =~= Seq::<Seq<char>>::empty());
        assert(Seq::<Seq<char>>::empty() + sp_split_char(s@, d) =~= sp_split_char(s@, d));
    }
    while i < n
        invariant
            n == s@.len(),
            start <= i <= n,
            forall|j: int| start <= j < i ==> s@[j] != d,
            sp_split_char(s@, d) == out.deep_view() + sp_split_char(s@.skip(start as int), d),
        decreases n - i,
    {
        let c = s.get_char(i);
        if c == d {
            let seg: String = s.substring_char(start, i).to_owned();
            proof {
                lemma_split_char_step(s@, d, start as int, i as int);
            }
            let ghost old_out = out.deep_view();
            out.push(seg);
            proof {
                assert(out.deep_view() =~= old_out.push(seg@));
                assert(out.deep_view() + sp_split_char(s@.skip(i + 1 as int), d) =~= old_out
                    + (seq![s@.subrange(start as int, i as int)] + sp_split_char(
                    s@.skip(i + 1 as int),
                    d,
                )));
            }
            start = i + 1;
        }
        i += 1;
    }
    let seg: String = s.substring_char(start, n).to_owned();
    proof {
        lemma_split_char_last(s@, d, start as int);
    }
    let ghost old_out = out.deep_view();
    out.push(seg);
    proof {
        assert(out.deep_view() =~= old_out.push(seg@));
        assert(old_out.push(seg@) =~= old_out + seq![s@.subrange(start as int, s@.len() as int)]);
    }
    out
}

} // verus!

verus! {

/// ASCII whitespace, the token separator of the geometry decoder.
pub open spec fn sp_is_ws(c: char) -> bool {
    c == ' ' || c == '\t' || c == '\n' || c == '\r' || c == '\x0C'
}

#[verifier::when_used_as_spec(sp_is_ws)]
pub fn is_ws(c: char) -> (r: bool)
    ensures
        r == sp_is_ws(c),
{
    c == ' ' || c == '\t' || c == '\n' || c == '\r' || c == '\x0C'
}

/// Index of the first ASCII whitespace in `s`, or `s.len()` if absent.
pub open spec fn sp_first_ws(s: Seq<char>) -> int
    decreases s.len(),
{
    if s.len() == 0 {
        0
    } else if sp_is_ws(s[0]) {
        0
    } else {
        1 + sp_first_ws(s.drop_first())
    }
}

pub proof fn lemma_first_ws_bounds(s: Seq<char>)
    ensures
        0 <= sp_first_ws(s) <= s.len(),
        sp_first_ws(s) < s.len() ==> sp_is_ws(s[sp_first_ws(s)]),
        forall|j: int| 0 <= j < sp_first_ws(s) ==> !sp_is_ws(s[j]),
    decreases s.len(),
{
    if s.len() == 0 {
    } else if sp_is_ws(s[0]) {
    } else {
        lemma_first_ws_bounds(s.drop_first());
        assert forall|j: int| 0 <= j < sp_first_ws(s) implies !sp_is_ws(s[j]) by {
            if j > 0 {
                assert(!sp_is_ws(s.drop_first()[j - 1]));
            }
        }
    }
}

proof fn lemma_first_ws_val(s: Seq<char>, k: int)
    requires
        0 <= k < s.len(),
        sp_is_ws(s[k]),
        forall|j: int| 0 <= j < k ==> !sp_is_ws(s[j]),
    ensures
        sp_first_ws(s) == k,
    decreases k,
{
    if k == 0 {
    } else {
        assert(!sp_is_ws(s[0]));
        lemma_first_ws_val(s.drop_first(), k - 1);
    }
}

proof fn lemma_first_ws_absent(s: Seq<char>)
    requires
        forall|j: int| 0 <= j < s.len() ==> !sp_is_ws(s[j]),
    ensures
        sp_first_ws(s) == s.len(),
    decreases s.len(),
{
    if s.len() == 0 {
    } else {
        lemma_first_ws_absent(s.drop_first());
    }
}

/// The maximal non-empty runs of non-whitespace characters of `s`, in order.
pub open spec fn sp_ws_tokens(s: Seq<char>) -> Seq<Seq<char>>
    decreases s.len(),
{
    if s.len() == 0 {
        Seq::empty()
    } else if sp_is_ws(s[0]) {
        sp_ws_tokens(s.drop_first())
    } else {
        let k = sp_first_ws(s);
        proof {
            lemma_first_ws_bounds(s);
        }
        seq![s.take(k)] + sp_ws_tokens(s.skip(k))
    }
}

proof fn lemma_ws_tokens_skip(s: Seq<char>, i: int)
    requires
        0 <= i < s.len(),
        sp_is_ws(s[i]),
    ensures
        sp_ws_tokens(s.skip(i)) == sp_ws_tokens(s.skip(i + 1)),
{
    assert(s.skip(i).drop_first() =~= s.skip(i + 1));
}

proof fn lemma_ws_tokens_step(s: Seq<char>, start: int, i: int)
    requires
        0 <= start < i < s.len(),
        sp_is_ws(s[i]),
        forall|j: int| start <= j < i ==> !sp_is_ws(s[j]),
    ensures
        sp_ws_tokens(s.skip(start)) == seq![s.subrange(start, i)] + sp_ws_tokens(s.skip(i + 1)),
{
    let t = s.skip(start);
    assert(!sp_is_ws(t[0]));
    assert(sp_is_ws(t[i - start]));
    assert(forall|j: int| 0 <= j < i - start ==> !sp_is_ws(t[j]));
    lemma_first_ws_val(t, i - start);
    assert(t.take(i - start) =~= s.subrange(start, i));
    assert(t.skip(i - start) =~= s.skip(i));
    lemma_ws_tokens_skip(s, i);
}

proof fn lemma_ws_tokens_last(s: Seq<char>, start: int)
    requires
        0 <= start < s.len(),
        forall|j: int| start <= j < s.len() ==> !sp_is_ws(s[j]),
    ensures
        sp_ws_tokens(s.skip(start)) == seq![s.subrange(start, s.len() as int)],
{
    let t = s.skip(start);
    assert(forall|j: int| 0 <= j < t.len() ==> !sp_is_ws(t[j]));
    lemma_first_ws_absent(t);
    assert(t.take(t.len() as int) =~= s.subrange(start, s.len() as int));
    assert(t.skip(t.len() as int) =~= Seq::<char>::empty());
    assert(seq![t.take(t.len() as int)] + sp_ws_tokens(Seq::<char>::empty()) =~= seq![
        s.subrange(start, s.len() as int),
    ]);
}

/// Splits `s` into its whitespace-separated tokens, dropping empty pieces,
/// as the geometry decoder requires.
pub fn ws_tokens(s: &str) -> (r: Vec<String>)
    ensures
        r.deep_view() == sp_ws_tokens(s@),
{
    let n: usize = s.unicode_len();
    let mut out: Vec<String> = Vec::new();
    let mut start: usize = 0;
    let mut i: usize = 0;
    proof {
        assert(s@.skip(0) =~= s@);
        assert(out.deep_view() =~= Seq::<Seq<char>>::empty());
        assert(Seq::<Seq<char>>::empty() + sp_ws_tokens(s@) =~= sp_ws_tokens(s@));
    }
    while i < n
        invariant
            n == s@.len(),
            start <= i <= n,
            forall|j: int| start <= j < i ==> !sp_is_ws(s@[j]),
            sp_ws_tokens(s@) == out.deep_view() + sp_ws_tokens(s@.skip(start as int)),
        decreases n - i,
    {
        let c = s.get_char(i);
        if is_ws(c) {
            if start < i {
                let seg: String = s.substring_char(start, i).to_owned();
                proof {
                    lemma_ws_tokens_step(s@, start as int, i as int);
                }
                let ghost old_out = out.deep_view();
                out.push(seg);
                proof {
                    assert(out.deep_view() =~= old_out.push(seg@));
                    assert(old_out.push(seg@) + sp_ws_tokens(s@.skip(i + 1 as int)) =~= old_out + (
                    seq![s@.subrange(start as int, i as int)] + sp_ws_tokens(s@.skip(i + 1 as int))));
                }
            } else {
                proof {
                    lemma_ws_tokens_skip(s@, i as int);
                }
            }
            start = i + 1;
        }
        i += 1;
    }
    if start < n {
        let seg: String = s.substring_char(start, n).to_owned();
        proof {
            lemma_ws_tokens_last(s@, start as int);
        }
        let ghost old_out = out.deep_view();
        out.push(seg);
        proof {
            assert(out.deep_view() =~= old_out.push(seg@));
            assert(old_out.push(seg@) =~= old_out + seq![
                s@.subrange(start as int, s@.len() as int),
            ]);
        }
    } else {
        proof {
            assert(s@.skip(start as int) =~= Seq::<char>::empty());
            assert(out.deep_view() + Seq::<Seq<char>>::empty() =~= out.deep_view());
        }
    }
    out
}

} // verus!

verus! {

/// An ASCII decimal digit.
pub open spec fn sp_is_digit(c: char) -> bool {
    c == '0' || c == '1' || c == '2' || c == '3' || c == '4' || c == '5' || c == '6' || c == '7'
        || c == '8' || c == '9'
}

#[verifier::when_used_as_spec(sp_is_digit)]
pub fn is_digit(c: char) -> (r: bool)
    ensures
        r == sp_is_digit(c),
{
    c == '0' || c == '1' || c == '2' || c == '3' || c == '4' || c == '5' || c == '6' || c == '7'
        || c == '8' || c == '9'
}

/// The numeric value of an ASCII decimal digit.
pub open spec fn sp_digit_val(c: char) -> int {
    if c == '0' {
        0
    } else if c == '1' {
        1
    } else if c == '2' {
        2
    } else if c == '3' {
        3
    } else if c == '4' {
        4
    } else if c == '5' {
        5
    } else if c == '6' {
        6
    } else if c == '7' {
        7
    } else if c == '8' {
        8
    } else {
        9
    }
}

pub fn digit_val(c: char) -> (r: u64)
    requires
        sp_is_digit(c),
    ensures
        r == sp_digit_val(c),
{
    if c == '0' {
        0
    } else if c == '1' {
        1
    } else if c == '2' {
        2
    } else if c == '3' {
        3
    } else if c == '4' {
        4
    } else if c == '5' {
        5
    } else if c == '6' {
        6
    } else if c == '7' {
        7
    } else if c == '8' {
        8
    } else {
        9
    }
}

pub open spec fn sp_all_digits(s: Seq<char>) -> bool {
    forall|i: int| 0 <= i < s.len() ==> sp_is_digit(s[i])
}

/// The value of a sequence of decimal digits, most significant first.
pub open spec fn sp_digits_val(s: Seq<char>) -> int
    decreases s.len(),
{
    if s.len() == 0 {
        0
    } else {
        sp_digits_val(s.drop_last()) * 10 + sp_digit_val(s.last())
    }
}

proof fn lemma_digits_val_nonneg(s: Seq<char>)
    ensures
        sp_digits_val(s) >= 0,
    decreases s.len(),
{
    if s.len() > 0 {
        lemma_digits_val_nonneg(s.drop_last());
    }
}

proof fn lemma_digits_val_prefix(s: Seq<char>, i: int)
    requires
        0 <= i <= s.len(),
    ensures
        sp_digits_val(s.take(i)) <= sp_digits_val(s),
    decreases s.len() - i,
{
    if i == s.len() {
        assert(s.take(i) =~= s);
    } else {
        lemma_digits_val_prefix(s, i + 1);
        let t = s.take(i + 1);
        assert(t.drop_last() =~= s.take(i));
        lemma_digits_val_nonneg(s.take(i));
        assert(sp_digits_val(s.take(i)) <= sp_digits_val(t));
    }
}

/// `s` with one leading `'+'` removed, the shape the unsigned decimal
/// grammar allows.
pub open spec fn sp_strip_plus(s: Seq<char>) -> Seq<char> {
    if s.len() > 0 && s[0] == '+' {
        s.drop_first()
    } else {
        s
    }
}

/// The value of `s` as an unsigned 64-bit decimal integer, `None` when the
/// text is not a plain decimal or does not fit.
pub open spec fn sp_parse_u64(s: Seq<char>) -> Option<u64> {
    let t = sp_strip_plus(s);
    if t.len() > 0 && sp_all_digits(t) && sp_digits_val(t) <= u64::MAX {
        Some(sp_digits_val(t) as u64)
    } else {
        None
    }
}

/// Reads an unsigned 64-bit decimal integer, following the standard
/// `from_str` grammar for unsigned integers: an optional `'+'` sign, then
/// one or more ASCII digits, rejecting values that do not fit.
pub fn parse_u64(s: &str) -> (r: Option<u64>)
    ensures
        r == sp_parse_u64(s@),
{
    let n: usize = s.unicode_len();
    let start: usize = if n > 0 && s.get_char(0) == '+' {
        1
    } else {
        0
    };
    let ghost t = sp_strip_plus(s@);
    proof {
        assert(t =~= s@.subrange(start as int, n as int));
    }
    if n == start {
        return None;
    }
    let mut val: u64 = 0;
    let mut i: usize = start;
    proof {
        assert(t.take(0) =~= Seq::<char>::empty());
    }
    while i < n
        invariant
            n == s@.len(),
            start <= i <= n,
            t == sp_strip_plus(s@),
            t == s@.subrange(start as int, n as int),
            forall|j: int| 0 <= j < i - start ==> sp_is_digit(t[j]),
            val == sp_digits_val(t.take(i - start)),
        decreases n - i,
    {
        let c = s.get_char(i);
        if !is_digit(c) {
            proof {
                assert(t[i - start] == s@[i as int]);
                assert(!sp_is_digit(t[i - start]));
            }
            return None;
        }
        let d = digit_val(c);
        if val > (u64::MAX - d) / 10 {
            proof {
                let p = t.take(i - start + 1);
                assert(p.drop_last() =~= t.take(i - start));
                assert(p.last() == t[i - start]);
                assert(sp_digits_val(p) == val * 10 + d);
                assert(val * 10 + d > u64::MAX) by (nonlinear_arith)
                    requires
                        val > (u64::MAX - d) / 10,
                        d <= 9,
                        val <= u64::MAX,
                ;
                lemma_digits_val_prefix(t, i - start + 1);
            }
            return None;
        }
        proof {
            assert(val * 10 + d <= u64::MAX) by (nonlinear_arith)
                requires
                    val <= (u64::MAX - d) / 10,
                    d <= 9,
            ;
            let p = t.take(i - start + 1);
            assert(p.drop_last() =~= t.take(i - start));
            assert(p.last() == t[i - start]);
        }
        val = val * 10 + d;
        i += 1;
    }
    proof {
        assert(t.take(n - start) =~= t);
        assert(sp_all_digits(t));
    }
    Some(val)
}

} // verus!

verus! {

/// Lower-cases the ASCII letters appearing in the special float spellings
/// `inf`, `infinity` and `nan`; leaves every other character unchanged.
pub open spec fn sp_lc(c: char) -> char {
    match c {
        'I' => 'i',
        'N' => 'n',
        'F' => 'f',
        'T' => 't',
        'Y' => 'y',
        'A' => 'a',
        _ => c,
    }
}

fn lc_char(c: char) -> (r: char)
    ensures
        r == sp_lc(c),
{
    match c {
        'I' => 'i',
        'N' => 'n',
        'F' => 'f',
        'T' => 't',
        'Y' => 'y',
        'A' => 'a',
        _ => c,
    }
}

/// Case-insensitive equality of `s` against a lower-case pattern drawn from
/// the special float spellings.
pub open spec fn sp_eq_ic(s: Seq<char>, lit: Seq<char>) -> bool {
    s.len() == lit.len() && forall|i: int| 0 <= i < s.len() ==> sp_lc(s[i]) == lit[i]
}

/// Compares `s` from position `from` onward against `lit`, ignoring the case
/// of the letters of the special float spellings.
fn eq_ic_from(s: &str, from: usize, lit: &str) -> (r: bool)
    requires
        from <= s@.len(),
    ensures
        r == sp_eq_ic(s@.skip(from as int), lit@),
{
    let n: usize = s.unicode_len();
    let m: usize = lit.unicode_len();
    if n - from != m {
        return false;
    }
    let mut i: usize = 0;
    while i < m
        invariant
            n == s@.len(),
            m == lit@.len(),
            from + m == n,
            i <= m,
            forall|j: int| 0 <= j < i ==> sp_lc(s@.skip(from as int)[j]) == lit@[j],
        decreases m - i,
    {
        let a = lc_char(s.get_char(from + i));
        let b = lit.get_char(i);
        if a != b {
            proof {
                assert(s@.skip(from as int)[i as int] == s@[from + i as int]);
            }
            return false;
        }
        proof {
            assert(s@.skip(from as int)[i as int] == s@[from + i as int]);
        }
        i += 1;
    }
    true
}

/// `s` with one leading sign character removed.
pub open spec fn sp_strip_sign(s: Seq<char>) -> Seq<char> {
    if s.len() > 0 && (s[0] == '+' || s[0] == '-') {
        s.drop_first()
    } else {
        s
    }
}

/// The number of `'.'` characters in `s`.
pub open spec fn sp_dot_count(s: Seq<char>) -> int
    decreases s.len(),
{
    if s.len() == 0 {
        0
    } else {
        sp_dot_count(s.drop_last()) + if s.last() == '.' {
            1int
        } else {
            0int
        }
    }
}

/// A valid float mantissa: only digits and dots, at most one dot, and at
/// least one digit.
pub open spec fn sp_mantissa_ok(m: Seq<char>) -> bool {
    &&& forall|i: int| 0 <= i < m.len() ==> sp_is_digit(m[i]) || m[i] == '.'
    &&& sp_dot_count(m) <= 1
    &&& exists|i: int| 0 <= i < m.len() && sp_is_digit(m[i])
}

/// A valid float exponent body: an optional sign, then one or more digits.
pub open spec fn sp_exp_ok(e: Seq<char>) -> bool {
    let t = sp_strip_sign(e);
    t.len() > 0 && sp_all_digits(t)
}

/// Index of the first exponent marker in `s`, or `s.len()` if absent.
pub open spec fn sp_first_e(s: Seq<char>) -> int
    decreases s.len(),
{
    if s.len() == 0 {
        0
    } else if s[0] == 'e' || s[0] == 'E' {
        0
    } else {
        1 + sp_first_e(s.drop_first())
    }
}

proof fn lemma_first_e_bounds(s: Seq<char>)
    ensures
        0 <= sp_first_e(s) <= s.len(),
    decreases s.len(),
{
    if s.len() == 0 {
    } else if s[0] == 'e' || s[0] == 'E' {
    } else {
        lemma_first_e_bounds(s.drop_first());
    }
}

proof fn lemma_first_e_val(s: Seq<char>, k: int)
    requires
        0 <= k < s.len(),
        s[k] == 'e' || s[k] == 'E',
        forall|j: int| 0 <= j < k ==> s[j] != 'e' && s[j] != 'E',
    ensures
        sp_first_e(s) == k,
    decreases k,
{
    if k == 0 {
    } else {
        lemma_first_e_val(s.drop_first(), k - 1);
    }
}

proof fn lemma_first_e_absent(s: Seq<char>)
    requires
        forall|j: int| 0 <= j < s.len() ==> s[j] != 'e' && s[j] != 'E',
    ensures
        sp_first_e(s) == s.len(),
    decreases s.len(),
{
    if s.len() == 0 {
    } else {
        lemma_first_e_absent(s.drop_first());
    }
}

/// A valid float body without its sign: a mantissa, optionally followed by
/// an exponent marker and a valid exponent.
pub open spec fn sp_number_ok(t: Seq<char>) -> bool {
    let k = sp_first_e(t);
    if k >= t.len() {
        sp_mantissa_ok(t)
    } else {
        sp_mantissa_ok(t.take(k)) && sp_exp_ok(t.skip(k + 1))
    }
}

/// Whether the standard library would accept `s` as a floating-point
/// literal: an optional sign, then `inf`, `infinity` or `nan` in any letter
/// case, or a number with an optional exponent.
pub open spec fn sp_is_float(s: Seq<char>) -> bool {
    let t = sp_strip_sign(s);
    sp_eq_ic(t, "inf"@) || sp_eq_ic(t, "infinity"@) || sp_eq_ic(t, "nan"@) || sp_number_ok(t)
}

/// Checks the mantissa grammar on the character range `lo..hi` of `s`.
fn scan_mantissa(s: &str, lo: usize, hi: usize) -> (r: bool)
    requires
        lo <= hi <= s@.len(),
    ensures
        r == sp_mantissa_ok(s@.subrange(lo as int, hi as int)),
{
    let ghost m = s@.subrange(lo as int, hi as int);
    let mut dots: u64 = 0;
    let mut seen_digit: bool = false;
    let mut i: usize = lo;
    proof {
        assert(m.take(0) =~= Seq::<char>::empty());
    }
    while i < hi
        invariant
            lo <= i <= hi <= s@.len(),
            m == s@.subrange(lo as int, hi as int),
            forall|j: int| 0 <= j < i - lo ==> sp_is_digit(m[j]) || m[j] == '.',
            dots == sp_dot_count(m.take(i - lo)),
            dots <= i - lo,
            seen_digit == exists|j: int| 0 <= j < i - lo && sp_is_digit(m[j]),
        decreases hi - i,
    {
        let c = s.get_char(i);
        proof {
            assert(m[i - lo] == s@[i as int]);
            let p = m.take(i - lo + 1);
            assert(p.drop_last() =~= m.take(i - lo));
            assert(p.last() == m[i - lo]);
        }
        if is_digit(c) {
            seen_digit = true;
        } else if c == '.' {
            dots = dots + 1;
        } else {
            return false;
        }
        i += 1;
    }
    proof {
        assert(m.take(hi - lo) =~= m);
    }
    dots <= 1 && seen_digit
}

/// Checks the exponent grammar on the character range `lo..hi` of `s`.
fn scan_exponent(s: &str, lo: usize, hi: usize) -> (r: bool)
    requires
        lo <= hi <= s@.len(),
    ensures
        r == sp_exp_ok(s@.subrange(lo as int, hi as int)),
{
    let ghost e = s@.subrange(lo as int, hi as int);
    let start: usize = if lo < hi && (s.get_char(lo) == '+' || s.get_char(lo) == '-') {
        lo + 1
    } else {
        lo
    };
    let ghost t = sp_strip_sign(e);
    proof {
        assert(t =~= s@.subrange(start as int, hi as int));
    }
    if start == hi {
        return false;
    }
    let mut i: usize = start;
    while i < hi
        invariant
            lo <= start <= i <= hi <= s@.len(),
            t == sp_strip_sign(s@.subrange(lo as int, hi as int)),
            t == s@.subrange(start as int, hi as int),
            forall|j: int| 0 <= j < i - start ==> sp_is_digit(t[j]),
        decreases hi - i,
    {
        let c = s.get_char(i);
        proof {
            assert(t[i - start] == s@[i as int]);
        }
        if !is_digit(c) {
            return false;
        }
        i += 1;
    }
    true
}

/// Index of the first exponent marker in the character range `start..n` of
/// `s`, or `n` if there is none.
fn find_exp_marker(s: &str, start: usize, n: usize) -> (ke: usize)
    requires
        start <= n == s@.len(),
    ensures
        start <= ke <= n,
        ke < n ==> s@[ke as int] == 'e' || s@[ke as int] == 'E',
        forall|j: int| start <= j < ke ==> s@[j] != 'e' && s@[j] != 'E',
{
    let mut i: usize = start;
    while i < n
        invariant
            n == s@.len(),
            start <= i <= n,
            forall|j: int| start <= j < i ==> s@[j] != 'e' && s@[j] != 'E',
        decreases n - i,
    {
        let c = s.get_char(i);
        if c == 'e' || c == 'E' {
            return i;
        }
        i += 1;
    }
    n
}

/// Whether the standard library's float parser would accept `s`; follows the
/// grammar that the standard library documents for `from_str`.
pub fn is_float_text(s: &str) -> (r: bool)
    ensures
        r == sp_is_float(s@),
{
    let n: usize = s.unicode_len();
    let start: usize = if n > 0 && (s.get_char(0) == '+' || s.get_char(0) == '-') {
        1
    } else {
        0
    };
    let ghost t = sp_strip_sign(s@);
    proof {
        assert(t =~= s@.skip(start as int));
    }
    if eq_ic_from(s, start, "inf") || eq_ic_from(s, start, "infinity") || eq_ic_from(
        s,
        start,
        "nan",
    ) {
        return true;
    }
    let ke = find_exp_marker(s, start, n);
    proof {
        assert(forall|j: int| 0 <= j < ke - start ==> t[j] != 'e' && t[j] != 'E');
        if ke < n {
            assert(t[ke - start] == s@[ke as int]);
            lemma_first_e_val(t, ke - start);
        } else {
            lemma_first_e_absent(t);
        }
        assert(t =~= s@.subrange(start as int, n as int));
    }
    if ke == n {
        let r = scan_mantissa(s, start, n);
        proof {
            assert(s@.subrange(start as int, n as int) =~= t);
        }
        r
    } else {
        let m = scan_mantissa(s, start, ke);
        if !m {
            proof {
                assert(t.take(ke - start) =~= s@.subrange(start as int, ke as int));
            }
            return false;
        }
        let e = scan_exponent(s, ke + 1, n);
        proof {
            assert(t.take(ke - start) =~= s@.subrange(start as int, ke as int));
            assert(t.skip(ke - start + 1) =~= s@.subrange(ke + 1 as int, n as int));
        }
        e
    }
}

} // verus!

verus! {

/// `s` without its leading ASCII whitespace.
pub open spec fn sp_trim_start(s: Seq<char>) -> Seq<char>
    decreases s.len(),
{
    if s.len() > 0 && sp_is_ws(s[0]) {
        sp_trim_start(s.drop_first())
    } else {
        s
    }
}

/// `s` without its trailing ASCII whitespace.
pub open spec fn sp_trim_end(s: Seq<char>) -> Seq<char>
    decreases s.len(),
{
    if s.len() > 0 && sp_is_ws(s.last()) {
        sp_trim_end(s.drop_last())
    } else {
        s
    }
}

/// `s` without its leading and trailing ASCII whitespace, the shape in
/// which field text is kept.
pub open spec fn sp_trim(s: Seq<char>) -> Seq<char> {
    sp_trim_end(sp_trim_start(s))
}

proof fn lemma_trim_start_val(s: Seq<char>, a: int)
    requires
        0 <= a <= s.len(),
        forall|j: int| 0 <= j < a ==> sp_is_ws(s[j]),
        a < s.len() ==> !sp_is_ws(s[a]),
    ensures
        sp_trim_start(s) == s.skip(a),
    decreases a,
{
    if a == 0 {
        assert(s.skip(0) =~= s);
        if s.len() > 0 {
            assert(!sp_is_ws(s[0]));
        }
    } else {
        assert(sp_is_ws(s[0]));
        let t = s.drop_first();
        assert(forall|j: int| 0 <= j < a - 1 ==> sp_is_ws(t[j]));
        lemma_trim_start_val(t, a - 1);
        assert(t.skip(a - 1) =~= s.skip(a));
    }
}

proof fn lemma_trim_end_val(s: Seq<char>, b: int)
    requires
        0 <= b <= s.len(),
        forall|j: int| b <= j < s.len() ==> sp_is_ws(s[j]),
        b > 0 ==> !sp_is_ws(s[b - 1]),
    ensures
        sp_trim_end(s) == s.take(b),
    decreases s.len() - b,
{
    if b == s.len() {
        assert(s.take(b) =~= s);
        if s.len() > 0 {
            assert(!sp_is_ws(s.last()));
        }
    } else {
        assert(sp_is_ws(s.last()));
        let t = s.drop_last();
        assert(forall|j: int| b <= j < t.len() ==> sp_is_ws(t[j]));
        lemma_trim_end_val(t, b);
        assert(t.take(b) =~= s.take(b));
    }
}

/// Strips leading and trailing ASCII whitespace.
pub fn trim_ws(s: &str) -> (r: String)
    ensures
        r@ == sp_trim(s@),
{
    let n: usize = s.unicode_len();
    let mut a: usize = 0;
    while a < n && is_ws(s.get_char(a))
        invariant
            n == s@.len(),
            a <= n,
            forall|j: int| 0 <= j < a ==> sp_is_ws(s@[j]),
        decreases n - a,
    {
        a += 1;
    }
    proof {
        lemma_trim_start_val(s@, a as int);
    }
    if a == n {
        proof {
            assert(s@.skip(a as int) =~= Seq::<char>::empty());
        }
        return String::new();
    }
    let mut b: usize = n;
    while b > a && is_ws(s.get_char(b - 1))
        invariant
            n == s@.len(),
            a <= b <= n,
            forall|j: int| b <= j < n ==> sp_is_ws(s@[j]),
        decreases b,
    {
        b -= 1;
    }
    proof {
        assert(!sp_is_ws(s@[a as int]));
        assert(b > a);
        let t = s@.skip(a as int);
        assert(forall|j: int| b - a <= j < t.len() ==> sp_is_ws(t[j]));
        assert(t[b - a - 1] == s@[b - 1 as int]);
        lemma_trim_end_val(t, b - a);
        assert(t.take(b - a) =~= s@.subrange(a as int, b as int));
    }
    s.substring_char(a, b).to_owned()
}

} // verus!
