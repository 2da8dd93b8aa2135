//! Byte-string primitives: ASCII literals, line splitting, trimming,
//! prefix tests, and decimal parsing and formatting.
//!
//! All driver text (child log output, transcript lines, wire payloads) is
//! handled as byte strings; the spec functions here are the vocabulary the
//! rest of the crate's contracts are written in.
use vstd::prelude::*;

verus! {

/// The bytes of an ASCII character sequence, one byte per character.
pub open spec fn ascii(s: Seq<char>) -> Seq<u8> {
    Seq::new(s.len(), |i: int| s[i] as u8)
}

/// Copies an ASCII string literal into its byte representation.
pub fn str_to_bytes(s: &str) -> (r: Vec<u8>)
    requires
        s.is_ascii(),
    ensures
        r@ == ascii(s@),
{
    proof {
        vstd::string::is_ascii_spec_bytes(s);
    }
    let b = s.as_bytes();
    let r = vstd::slice::slice_to_vec(b);
    proof {
        assert(r@ =~= ascii(s@));
    }
    r
}

/// ASCII whitespace: space, tab, line feed, vertical tab, form feed,
/// carriage return.
pub open spec fn is_space(b: u8) -> bool {
    b == 32 || b == 9 || b == 10 || b == 11 || b == 12 || b == 13
}

/// ASCII decimal digit.
pub open spec fn is_digit(b: u8) -> bool {
    48 <= b <= 57
}

pub open spec fn all_digits(s: Seq<u8>) -> bool {
    forall|i: int| 0 <= i < s.len() ==> is_digit(#[trigger] s[i])
}

/// Value of a digit string, most significant digit first.
pub open spec fn dec_val(s: Seq<u8>) -> nat
    decreases s.len(),
{
    if s.len() == 0 {
        0
    } else {
        dec_val(s.drop_last()) * 10 + (s.last() - 48) as nat
    }
}

/// What a digit string parses to: defined exactly when the string is
/// non-empty, all digits, and its value fits in `u64`.
pub open spec fn parsed_u64(s: Seq<u8>) -> Option<u64> {
    if s.len() > 0 && all_digits(s) && dec_val(s) <= u64::MAX {
        Some(dec_val(s) as u64)
    } else {
        None
    }
}

proof fn lemma_dec_val_grows(s: Seq<u8>, i: int)
    requires
        0 <= i < s.len(),
    ensures
        dec_val(s.take(i)) <= dec_val(s.take(i + 1)),
        dec_val(s.take(i + 1)) == dec_val(s.take(i)) * 10 + (s[i] - 48) as nat,
    decreases s.len(),
{
    assert(s.take(i + 1).drop_last() =~= s.take(i));
    assert(s.take(i + 1).last() == s[i]);
}

/// Parses a non-empty, all-digit byte string into a `u64`; rejects anything
/// else, including values that overflow.
pub fn parse_u64(s: &[u8]) -> (r: Option<u64>)
    ensures
        r == parsed_u64(s@),
{
    if s.len() == 0 {
        return None;
    }
    let mut acc: u64 = 0;
    let mut i: usize = 0;
    while i < s.len()
        invariant
            0 <= i <= s.len(),
            all_digits(s@.take(i as int)),
            dec_val(s@.take(i as int)) == acc,
        decreases s.len() - i,
    {
        let b = s[i];
        if b < 48 || b > 57 {
            assert(!all_digits(s@));
            return None;
        }
        let d: u64 = (b - 48) as u64;
        proof {
            lemma_dec_val_grows(s@, i as int);
        }
        let shifted = match acc.checked_mul(10) {
            Some(v) => v,
            None => {
                proof {
                    lemma_overflow_sticks(s@, i + 1);
                }
                return None;
            },
        };
        acc = match shifted.checked_add(d) {
            Some(v) => v,
            None => {
                proof {
                    lemma_overflow_sticks(s@, i + 1);
                }
                return None;
            },
        };
        i = i + 1;
    }
    assert(s@.take(s@.len() as int) =~= s@);
    Some(acc)
}

/// Once a digit-string prefix exceeds `u64::MAX`, every extension does too.
proof fn lemma_overflow_sticks(s: Seq<u8>, i: int)
    requires
        0 < i <= s.len(),
        dec_val(s.take(i)) > u64::MAX,
    ensures
        dec_val(s) > u64::MAX,
    decreases s.len() - i,
{
    if i == s.len() {
        assert(s.take(i) =~= s);
    } else {
        lemma_dec_val_grows(s, i);
        lemma_overflow_sticks(s, i + 1);
    }
}

/// Decimal text of a natural number, without sign or leading zeros.
pub open spec fn dec_str(n: nat) -> Seq<u8>
    decreases n,
{
    if n < 10 {
        seq![(48 + n) as u8]
    } else {
        dec_str(n / 10).push((48 + n % 10) as u8)
    }
}

/// Formats a `u64` in decimal.
pub fn fmt_u64(n: u64) -> (r: Vec<u8>)
    ensures
        r@ == dec_str(n as nat),
{
    let mut ds: Vec<u8> = Vec::new();
    let mut m: u64 = n;
    while m >= 10
        invariant
            dec_str(n as nat) =~= dec_str(m as nat) + ds@.reverse(),
        decreases m,
    {
        let d: u8 = (m % 10) as u8 + 48;
        proof {
            assert(ds@.push(d).reverse() =~= seq![d] + ds@.reverse());
            assert(dec_str((m / 10) as nat).push(d) + ds@.reverse() =~= dec_str((m / 10) as nat)
                + (seq![d] + ds@.reverse()));
        }
        ds.push(d);
        m = m / 10;
    }
    let last: u8 = m as u8 + 48;
    ds.push(last);
    proof {
        assert(ds@.reverse() =~= seq![last] + ds@.drop_last().reverse());
        assert(dec_str(m as nat) =~= seq![last]);
        assert(dec_str(n as nat) =~= ds@.reverse());
    }
    let mut r: Vec<u8> = Vec::new();
    let mut k: usize = ds.len();
    while k > 0
        invariant
            0 <= k <= ds.len(),
            r@ =~= ds@.reverse().take((ds@.len() - k) as int),
            dec_str(n as nat) =~= ds@.reverse(),
        decreases k,
    {
        k = k - 1;
        let b = ds[k];
        r.push(b);
        proof {
            assert(ds@.reverse()[ds@.len() - k - 1] == ds@[k as int]);
            assert(r@ =~= ds@.reverse().take((ds@.len() - k) as int));
        }
    }
    proof {
        assert(ds@.reverse().take(ds@.len() as int) =~= ds@.reverse());
    }
    r
}

/// Drops a single trailing carriage return, as line splitting does.
pub open spec fn strip_cr(l: Seq<u8>) -> Seq<u8> {
    if l.len() > 0 && l.last() == 13 {
        l.drop_last()
    } else {
        l
    }
}

/// Line splitting, byte by byte: `cur` is the line being accumulated and
/// `acc` the finished lines. A line ends at a line feed; a final line without
/// one still counts; an empty final segment does not.
pub open spec fn lines_rec(s: Seq<u8>, cur: Seq<u8>, acc: Seq<Seq<u8>>) -> Seq<Seq<u8>>
    decreases s.len(),
{
    if s.len() == 0 {
        if cur.len() == 0 {
            acc
        } else {
            acc.push(strip_cr(cur))
        }
    } else if s[0] == 10 {
        lines_rec(s.skip(1), Seq::empty(), acc.push(strip_cr(cur)))
    } else {
        lines_rec(s.skip(1), cur.push(s[0]), acc)
    }
}

/// The lines of a byte string: split at line feeds, one trailing carriage
/// return removed per line, no empty line after a final line feed.
pub open spec fn lines_of(s: Seq<u8>) -> Seq<Seq<u8>> {
    lines_rec(s, Seq::empty(), Seq::empty())
}

/// Splits a byte string into its lines.
pub fn split_lines(s: &[u8]) -> (r: Vec<Vec<u8>>)
    ensures
        r.deep_view() == lines_of(s@),
{
    let mut acc: Vec<Vec<u8>> = Vec::new();
    let mut cur: Vec<u8> = Vec::new();
    let mut i: usize = 0;
    proof {
        assert(s@.skip(0) =~= s@);
        assert(acc.deep_view() =~~= Seq::<Seq<u8>>::empty());
    }
    while i < s.len()
        invariant
            0 <= i <= s.len(),
            lines_of(s@) == lines_rec(s@.skip(i as int), cur@, acc.deep_view()),
        decreases s.len() - i,
    {
        let b = s[i];
        proof {
            assert(s@.skip(i as int)[0] == s@[i as int]);
            assert(s@.skip(i as int).skip(1) =~= s@.skip(i + 1));
        }
        if b == 10 {
            let ghost prev = acc.deep_view();
            let stripped = strip_cr_exec(cur);
            acc.push(stripped);
            cur = Vec::new();
            proof {
                assert(acc.deep_view() =~~= prev.push(stripped@));
            }
        } else {
            cur.push(b);
        }
        i = i + 1;
    }
    proof {
        assert(s@.skip(s@.len() as int) =~= Seq::<u8>::empty());
    }
    if cur.len() > 0 {
        let ghost prev = acc.deep_view();
        let stripped = strip_cr_exec(cur);
        acc.push(stripped);
        proof {
            assert(acc.deep_view() =~~= prev.push(stripped@));
        }
    }
    acc
}

fn strip_cr_exec(l: Vec<u8>) -> (r: Vec<u8>)
    ensures
        r@ == strip_cr(l@),
{
    let mut l = l;
    if l.len() > 0 && l[l.len() - 1] == 13 {
        l.pop();
    }
    l
}

/// A byte string with leading whitespace removed.
pub open spec fn trim_front(s: Seq<u8>) -> Seq<u8>
    decreases s.len(),
{
    if s.len() > 0 && is_space(s[0]) {
        trim_front(s.skip(1))
    } else {
        s
    }
}

/// A byte string with trailing whitespace removed.
pub open spec fn trim_back(s: Seq<u8>) -> Seq<u8>
    decreases s.len(),
{
    if s.len() > 0 && is_space(s.last()) {
        trim_back(s.drop_last())
    } else {
        s
    }
}

/// A byte string with whitespace removed from both ends.
pub open spec fn trimmed(s: Seq<u8>) -> Seq<u8> {
    trim_back(trim_front(s))
}

fn is_space_exec(b: u8) -> (r: bool)
    ensures
        r == is_space(b),
{
    b == 32 || b == 9 || b == 10 || b == 11 || b == 12 || b == 13
}

proof fn lemma_trim_front_skip(s: Seq<u8>, i: int)
    requires
        0 <= i <= s.len(),
        forall|j: int| 0 <= j < i ==> is_space(#[trigger] s[j]),
    ensures
        trim_front(s) == trim_front(s.skip(i)),
    decreases i,
{
    if i > 0 {
        assert(is_space(s[0]));
        assert(s.skip(1).skip(i - 1) =~= s.skip(i));
        lemma_trim_front_skip(s.skip(1), i - 1);
    } else {
        assert(s.skip(0) =~= s);
    }
}

proof fn lemma_trim_back_take(s: Seq<u8>, i: int)
    requires
        0 <= i <= s.len(),
        forall|j: int| i <= j < s.len() ==> is_space(#[trigger] s[j]),
    ensures
        trim_back(s) == trim_back(s.take(i)),
    decreases s.len() - i,
{
    if i < s.len() {
        assert(is_space(s.last()));
        assert(s.drop_last() =~= s.take(s.len() - 1));
        assert(s.take(s.len() - 1).take(i) =~= s.take(i));
        lemma_trim_back_take(s.take(s.len() - 1), i);
    } else {
        assert(s.take(i) =~= s);
    }
}

/// Copies a byte string with surrounding whitespace removed.
pub fn trim(s: &[u8]) -> (r: Vec<u8>)
    ensures
        r@ == trimmed(s@),
{
    let mut start: usize = 0;
    while start < s.len() && is_space_exec(s[start])
        invariant
            0 <= start <= s.len(),
            forall|j: int| 0 <= j < start ==> is_space(#[trigger] s@[j]),
        decreases s.len() - start,
    {
        start = start + 1;
    }
    proof {
        lemma_trim_front_skip(s@, start as int);
        if start < s@.len() {
            assert(s@.skip(start as int)[0] == s@[start as int]);
        }
        assert(trim_front(s@) == s@.skip(start as int));
    }
    let mut end: usize = s.len();
    while end > start && is_space_exec(s[end - 1])
        invariant
            start <= end <= s.len(),
            forall|j: int| end <= j < s.len() ==> is_space(#[trigger] s@[j]),
        decreases end,
    {
        end = end - 1;
    }
    proof {
        let t = s@.skip(start as int);
        assert(forall|j: int| end - start <= j < t.len() ==> is_space(#[trigger] t[j]));
        lemma_trim_back_take(t, end - start);
        if end > start {
            assert(t.take(end - start).last() == s@[end - 1]);
        }
        assert(trim_back(t) == t.take(end - start));
    }
    let mut r: Vec<u8> = Vec::new();
    let mut k: usize = start;
    while k < end
        invariant
            start <= k <= end <= s.len(),
            r@ =~= s@.skip(start as int).take(k - start),
        decreases end - k,
    {
        let b = s[k];
        r.push(b);
        k = k + 1;
    }
    proof {
        assert(r@ =~= trimmed(s@));
    }
    r
}

/// Whether `p` is a prefix of `s`.
pub open spec fn has_prefix(s: Seq<u8>, p: Seq<u8>) -> bool {
    p.is_prefix_of(s)
}

/// Tests whether a byte string starts with the given prefix.
pub fn starts_with(s: &[u8], p: &[u8]) -> (r: bool)
    ensures
        r == has_prefix(s@, p@),
{
    if p.len() > s.len() {
        return false;
    }
    let mut i: usize = 0;
    while i < p.len()
        invariant
            0 <= i <= p@.len() <= s@.len(),
            forall|j: int| 0 <= j < i ==> s@[j] == p@[j],
        decreases p.len() - i,
    {
        if s[i] != p[i] {
            assert(!p@.is_prefix_of(s@));
            return false;
        }
        i = i + 1;
    }
    proof {
        assert(p@ =~= s@.take(p@.len() as int));
    }
    true
}

/// The rest of `s` after a prefix of length `n`.
pub open spec fn after_prefix(s: Seq<u8>, n: int) -> Seq<u8> {
    s.skip(n)
}

/// Copies the part of a byte string that follows the given prefix.
pub fn strip_prefix(s: &[u8], p: &[u8]) -> (r: Option<Vec<u8>>)
    ensures
        match r {
            Some(rest) => has_prefix(s@, p@) && rest@ == after_prefix(s@, p@.len() as int),
            None => !has_prefix(s@, p@),
        },
{
    if !starts_with(s, p) {
        return None;
    }
    let mut r: Vec<u8> = Vec::new();
    let mut k: usize = p.len();
    while k < s.len()
        invariant
            p@.len() <= k <= s@.len(),
            r@ =~= s@.skip(p@.len() as int).take(k - p@.len()),
        decreases s.len() - k,
    {
        let b = s[k];
        r.push(b);
        k = k + 1;
    }
    proof {
        assert(r@ =~= after_prefix(s@, p@.len() as int));
    }
    Some(r)
}

/// Number of `.` bytes in a string.
pub open spec fn dot_count(s: Seq<u8>) -> nat
    decreases s.len(),
{
    if s.len() == 0 {
        0
    } else {
        dot_count(s.drop_last()) + if s.last() == 46 { 1nat } else { 0nat }
    }
}

/// Whether a byte is a digit.
pub open spec fn has_a_digit(s: Seq<u8>) -> bool {
    exists|i: int| 0 <= i < s.len() && is_digit(#[trigger] s[i])
}

/// The decimal texts the driver accepts for a percentage: digits with at
/// most one decimal point and at least one digit.
pub open spec fn is_decimal_text(s: Seq<u8>) -> bool {
    &&& s.len() > 0
    &&& forall|i: int| 0 <= i < s.len() ==> is_digit(#[trigger] s[i]) || s[i] == 46
    &&& dot_count(s) <= 1
    &&& has_a_digit(s)
}

proof fn lemma_dot_count_step(s: Seq<u8>, i: int)
    requires
        0 <= i < s.len(),
    ensures
        dot_count(s.take(i + 1)) == dot_count(s.take(i)) + if s[i] == 46 {
            1nat
        } else {
            0nat
        },
{
    assert(s.take(i + 1).drop_last() =~= s.take(i));
    assert(s.take(i + 1).last() == s[i]);
}

/// Tests whether a byte string is decimal-number text.
pub fn check_decimal_text(s: &[u8]) -> (r: bool)
    ensures
        r == is_decimal_text(s@),
{
    if s.len() == 0 {
        return false;
    }
    let mut dots: usize = 0;
    let mut saw_digit = false;
    let mut i: usize = 0;
    while i < s.len()
        invariant
            0 <= i <= s.len(),
            dots == dot_count(s@.take(i as int)),
            dots <= i,
            saw_digit == has_a_digit(s@.take(i as int)),
            forall|j: int| 0 <= j < i ==> is_digit(#[trigger] s@[j]) || s@[j] == 46,
        decreases s.len() - i,
    {
        let b = s[i];
        proof {
            lemma_dot_count_step(s@, i as int);
            assert(s@.take(i + 1).take(i as int) =~= s@.take(i as int));
        }
        if b == 46 {
            dots = dots + 1;
        } else if 48 <= b && b <= 57 {
            saw_digit = true;
            proof {
                assert(is_digit(s@.take(i + 1)[i as int]));
            }
        } else {
            assert(!(is_digit(s@[i as int]) || s@[i as int] == 46));
            return false;
        }
        proof {
            if !saw_digit {
                assert(forall|j: int| 0 <= j < i + 1 ==> !is_digit(#[trigger] s@.take(i + 1)[j]));
            }
        }
        i = i + 1;
    }
    proof {
        assert(s@.take(s@.len() as int) =~= s@);
    }
    dots <= 1 && saw_digit
}

/// Appends a byte slice to a growing buffer.
pub fn push_all(dst: &mut Vec<u8>, src: &[u8])
    ensures
        final(dst)@ == old(dst)@ + src@,
{
    let mut k: usize = 0;
    while k < src.len()
        invariant
            0 <= k <= src@.len(),
            dst@ =~= old(dst)@ + src@.take(k as int),
        decreases src.len() - k,
    {
        let b = src[k];
        dst.push(b);
        k = k + 1;
    }
    proof {
        assert(dst@ =~= old(dst)@ + src@);
    }
}

} // verus!
