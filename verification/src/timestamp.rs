//! The local time of a snapshot, written as `%Y-%m-%dT%H:%M:%S`.
use vstd::prelude::*;

verus! {

/// A local date and time, field by field, as the clock gives it.
pub struct LocalTime {
    pub year: i32,
    pub month: u32,
    pub day: u32,
    pub hour: u32,
    pub minute: u32,
    pub second: u32,
}

/// The decimal digit of `d` (below 10).
pub open spec fn digit(d: nat) -> char {
    (48 + d) as char
}

/// The decimal digits of `n`, without leading zeros.
pub open spec fn decimal(n: nat) -> Seq<char>
    decreases n,
{
    if n < 10 {
        seq![digit(n)]
    } else {
        decimal(n / 10).push(digit(n % 10))
    }
}

/// `n` zeros.
pub open spec fn zeros(n: int) -> Seq<char>
    decreases n,
{
    if n <= 0 {
        seq![]
    } else {
        zeros(n - 1).push('0')
    }
}

/// The decimal digits of `n`, with zeros in front up to `w` digits.
pub open spec fn padded(n: nat, w: int) -> Seq<char> {
    zeros(w - decimal(n).len()) + decimal(n)
}

/// A year as `%Y` writes it: four digits (zero-padded) for the years 0 to 9999, and
/// otherwise a sign followed by at least four digits.
pub open spec fn year_text(y: int) -> Seq<char> {
    if 0 <= y && y <= 9999 {
        padded(y as nat, 4)
    } else if y < 0 {
        seq!['-'] + padded((-y) as nat, 4)
    } else {
        seq!['+'] + padded(y as nat, 4)
    }
}

/// `t` as `%Y-%m-%dT%H:%M:%S`.
pub open spec fn timestamp_text(t: LocalTime) -> Seq<char> {
    year_text(t.year as int) + seq!['-'] + padded(t.month as nat, 2) + seq!['-'] + padded(t.day as nat, 2)
        + seq!['T'] + padded(t.hour as nat, 2) + seq![':'] + padded(t.minute as nat, 2) + seq![':']
        + padded(t.second as nat, 2)
}

/// Appends the decimal digits of `n`.
fn push_decimal(v: &mut Vec<char>, n: u64)
    ensures
        final(v)@ == old(v)@ + decimal(n as nat),
    decreases n,
{
    if n >= 10 {
        push_decimal(v, n / 10);
    }
    let d = (n % 10) as u8;
    v.push((48 + d) as char);
    proof {
        if n >= 10 {
            assert(decimal(n as nat) == decimal((n / 10) as nat).push(digit((n % 10) as nat)));
        }
    }
}

proof fn lemma_zeros_len(n: int)
    ensures
        zeros(n).len() == if n <= 0 {
            0
        } else {
            n
        },
    decreases n,
{
    if n > 0 {
        lemma_zeros_len(n - 1);
    }
}

/// Appends `n` zero-padded to `w` digits.
fn push_padded(v: &mut Vec<char>, n: u64, w: usize)
    ensures
        final(v)@ == old(v)@ + padded(n as nat, w as int),
{
    let mut digits: Vec<char> = Vec::new();
    push_decimal(&mut digits, n);
    assert(digits@ =~= decimal(n as nat));
    let ghost start = v@;
    let mut k: usize = digits.len();
    let ghost mut z: int = 0;
    while k < w
        invariant
            digits@ == decimal(n as nat),
            digits@.len() <= k,
            z == k - digits@.len(),
            digits@.len() <= w ==> k <= w,
            digits@.len() > w ==> k == digits@.len(),
            v@ == start + zeros(z),
        decreases w - k,
    {
        v.push('0');
        proof {
            z = z + 1;
            assert(zeros(z) == zeros(z - 1).push('0'));
            assert(v@ =~= start + zeros(z));
        }
        k = k + 1;
    }
    proof {
        lemma_zeros_len(w - decimal(n as nat).len());
        if w >= digits@.len() {
            assert(z == w - decimal(n as nat).len());
        } else {
            assert(z == 0);
            assert(zeros(w - decimal(n as nat).len()) =~= zeros(0));
        }
        assert(zeros(z) == zeros(w - decimal(n as nat).len()));
    }
    crate::text::append_chars(v, digits.as_slice());
    assert(v@ =~= start + padded(n as nat, w as int));
}

/// `t` as `%Y-%m-%dT%H:%M:%S`.
pub fn format_timestamp(t: &LocalTime) -> (r: String)
    ensures
        r@ == timestamp_text(*t),
{
    let mut v: Vec<char> = Vec::new();
    let y = t.year;
    if 0 <= y && y <= 9999 {
        push_padded(&mut v, y as u64, 4);
    } else if y < 0 {
        v.push('-');
        let a: i64 = -(y as i64);
        push_padded(&mut v, a as u64, 4);
    } else {
        v.push('+');
        push_padded(&mut v, y as u64, 4);
    }
    assert(v@ =~= year_text(t.year as int));
    v.push('-');
    push_padded(&mut v, t.month as u64, 2);
    v.push('-');
    push_padded(&mut v, t.day as u64, 2);
    v.push('T');
    push_padded(&mut v, t.hour as u64, 2);
    v.push(':');
    push_padded(&mut v, t.minute as u64, 2);
    v.push(':');
    push_padded(&mut v, t.second as u64, 2);
    assert(v@ =~= timestamp_text(*t));
    crate::text::from_chars(v.as_slice())
}

proof fn lemma_decimal_len(n: nat)
    ensures
        n < 10 ==> decimal(n).len() == 1,
        n < 100 ==> decimal(n).len() <= 2,
        n < 1000 ==> decimal(n).len() <= 3,
        n < 10000 ==> decimal(n).len() <= 4,
        decimal(n).len() >= 1,
    decreases n,
{
    if n >= 10 {
        lemma_decimal_len(n / 10);
    }
}

proof fn lemma_padded_len(n: nat, w: int)
    requires
        decimal(n).len() <= w,
    ensures
        padded(n, w).len() == w,
{
    lemma_zeros_len(w - decimal(n).len());
}

/// For a year from 0 to 9999 and fields below 100, the timestamp has the shape
/// `YYYY-MM-DDTHH:MM:SS`: 19 characters with the separators in their places.
pub proof fn lemma_timestamp_shape(t: LocalTime)
    requires
        0 <= t.year <= 9999,
        t.month < 100,
        t.day < 100,
        t.hour < 100,
        t.minute < 100,
        t.second < 100,
    ensures
        timestamp_text(t).len() == 19,
        timestamp_text(t)[4] == '-',
        timestamp_text(t)[7] == '-',
        timestamp_text(t)[10] == 'T',
        timestamp_text(t)[13] == ':',
        timestamp_text(t)[16] == ':',
{
    lemma_decimal_len(t.year as nat);
    lemma_decimal_len(t.month as nat);
    lemma_decimal_len(t.day as nat);
    lemma_decimal_len(t.hour as nat);
    lemma_decimal_len(t.minute as nat);
    lemma_decimal_len(t.second as nat);
    lemma_padded_len(t.year as nat, 4);
    lemma_padded_len(t.month as nat, 2);
    lemma_padded_len(t.day as nat, 2);
    lemma_padded_len(t.hour as nat, 2);
    lemma_padded_len(t.minute as nat, 2);
    lemma_padded_len(t.second as nat, 2);
}

} // verus!
