//! Reading text: lines, words between white space, and decimal numerals.

use vstd::arithmetic::div_mod::lemma_div_denominator;
use vstd::prelude::*;

verus! {

/// Whether the byte is white space: a blank, or one of the five control
/// characters from tab to carriage return.
pub open spec fn is_space(b: u8) -> bool {
    b == 32 || (9 <= b && b <= 13)
}

/// Whether the byte is a decimal digit.
pub open spec fn is_digit(b: u8) -> bool {
    48 <= b && b <= 57
}

/// The index of the line feed that ends the line which holds index `from`,
/// or the length of the text if none follows.
pub open spec fn line_end(data: Seq<u8>, from: int) -> int
    decreases data.len() - from,
{
    if from >= data.len() {
        data.len() as int
    } else if data[from] == 10 {
        from
    } else {
        line_end(data, from + 1)
    }
}

/// The first index from `from` on, below `limit`, that holds no white space,
/// or `limit` if there is none.
pub open spec fn word_start(data: Seq<u8>, from: int, limit: int) -> int
    decreases limit - from,
{
    if from >= limit {
        limit
    } else if !is_space(data[from]) {
        from
    } else {
        word_start(data, from + 1, limit)
    }
}

/// The first index from `from` on, below `limit`, that holds white space, or
/// `limit` if there is none.
pub open spec fn word_end(data: Seq<u8>, from: int, limit: int) -> int
    decreases limit - from,
{
    if from >= limit {
        limit
    } else if is_space(data[from]) {
        from
    } else {
        word_end(data, from + 1, limit)
    }
}

/// The first index from `from` on that holds no digit, or the length of the
/// word if there is none.
pub open spec fn digits_end(word: Seq<u8>, from: int) -> int
    decreases word.len() - from,
{
    if from >= word.len() {
        word.len() as int
    } else if !is_digit(word[from]) {
        from
    } else {
        digits_end(word, from + 1)
    }
}

/// The number that results when the digits of `word` from `from` up to `to`
/// are appended to the decimal digits of `start`.
pub open spec fn digits_onto(word: Seq<u8>, from: int, to: int, start: int) -> int
    decreases to - from,
{
    if to <= from {
        start
    } else {
        digits_onto(word, from, to - 1, start) * 10 + (word[to - 1] - 48)
    }
}

/// Ten to the power of `n`.
pub open spec fn pow10(n: nat) -> nat
    decreases n,
{
    if n == 0 {
        1
    } else {
        10 * pow10((n - 1) as nat)
    }
}

/// The index at which the digits of the integer part of a numeral start:
/// after a sign, if there is one.
pub open spec fn after_sign(word: Seq<u8>, from: int) -> int {
    if from < word.len() && (word[from] == 45 || word[from] == 43) {
        from + 1
    } else {
        from
    }
}

/// Whether a minus sign stands at index `from`.
pub open spec fn minus_at(word: Seq<u8>, from: int) -> bool {
    from < word.len() && word[from] == 45
}

/// The parts of a decimal numeral: a sign, digits, a point with more digits,
/// and the letter e with a sign and the digits of an exponent. A part that
/// is missing is empty. All indices are into the word.
pub struct Numeral {
    /// Start and end of the digits before the point.
    pub whole: (int, int),
    /// Start and end of the digits after the point.
    pub fraction: (int, int),
    /// Whether the letter e follows.
    pub has_exponent: bool,
    /// Start and end of the digits of the exponent.
    pub exponent: (int, int),
}

/// The parts of the numeral that `word` starts with.
pub open spec fn numeral_parts(word: Seq<u8>) -> Numeral {
    let w0 = after_sign(word, 0);
    let w1 = digits_end(word, w0);
    let f0 = if w1 < word.len() && word[w1] == 46 {
        w1 + 1
    } else {
        w1
    };
    let f1 = digits_end(word, f0);
    let has_exponent = f1 < word.len() && (word[f1] == 101 || word[f1] == 69);
    let e0 = if has_exponent {
        after_sign(word, f1 + 1)
    } else {
        f1
    };
    let e1 = if has_exponent {
        digits_end(word, e0)
    } else {
        f1
    };
    Numeral { whole: (w0, w1), fraction: (f0, f1), has_exponent, exponent: (e0, e1) }
}

/// Whether `word` is a numeral that is read: it has from one to 18 digits
/// before and after the point taken together, its exponent, if it has one,
/// from one to four digits, and nothing follows.
pub open spec fn is_numeral(word: Seq<u8>) -> bool {
    let p = numeral_parts(word);
    let digits = (p.whole.1 - p.whole.0) + (p.fraction.1 - p.fraction.0);
    &&& 1 <= digits <= 18
    &&& p.has_exponent ==> 1 <= p.exponent.1 - p.exponent.0 <= 4
    &&& p.exponent.1 == word.len()
}

/// The digits of the numeral before and after the point, read as one
/// number.
pub open spec fn numeral_digits(word: Seq<u8>) -> int {
    let p = numeral_parts(word);
    digits_onto(word, p.fraction.0, p.fraction.1, digits_onto(word, p.whole.0, p.whole.1, 0))
}

/// The power of ten that the digits of the numeral are to be multiplied by:
/// the exponent, less the number of digits after the point.
pub open spec fn numeral_power(word: Seq<u8>) -> int {
    let p = numeral_parts(word);
    let exponent = digits_onto(word, p.exponent.0, p.exponent.1, 0);
    (if p.has_exponent && minus_at(word, p.fraction.1 + 1) {
        -exponent
    } else {
        exponent
    }) - (p.fraction.1 - p.fraction.0)
}

/// The magnitude of the numeral in raw units, rounded down.
pub open spec fn numeral_magnitude(word: Seq<u8>) -> int {
    let digits = numeral_digits(word);
    let power = numeral_power(word);
    if power >= 0 {
        digits * pow10(power as nat) * 65536
    } else {
        (digits * 65536) / (pow10((-power) as nat) as int)
    }
}

/// The scalar that the numeral `word` stands for, rounded toward zero, or
/// `None` if `word` is no numeral that is read or stands for more than a
/// scalar holds.
#[verifier::opaque]
pub open spec fn scalar_of_numeral(word: Seq<u8>) -> Option<i32> {
    if !is_numeral(word) || numeral_magnitude(word) > i32::MAX {
        None
    } else if minus_at(word, 0) {
        Some((-numeral_magnitude(word)) as i32)
    } else {
        Some(numeral_magnitude(word) as i32)
    }
}

/// The number that the word stands for if it is made of one to nine digits,
/// and `None` if not.
pub open spec fn index_of_word(word: Seq<u8>) -> Option<usize> {
    if 1 <= word.len() <= 9 && digits_end(word, 0) == word.len() {
        Some(digits_onto(word, 0, word.len() as int, 0) as usize)
    } else {
        None
    }
}

/// Powers of ten grow with the exponent, and the first of them is one.
pub proof fn lemma_pow10_grows(a: nat, b: nat)
    requires
        a <= b,
    ensures
        1 <= pow10(a) <= pow10(b),
    decreases b,
{
    if a < b {
        lemma_pow10_grows(a, (b - 1) as nat);
    } else if a > 0 {
        lemma_pow10_grows((a - 1) as nat, (a - 1) as nat);
    }
}

/// Ten to the power of 18.
pub proof fn lemma_pow10_of_18()
    ensures
        pow10(18) == 1_000_000_000_000_000_000,
        pow10(9) == 1_000_000_000,
        pow10(4) == 10_000,
{
    reveal_with_fuel(pow10, 19);
}

/// A run of digits ends at or after the index it is asked from, and at a
/// byte that is no digit.
pub proof fn lemma_digits_end(word: Seq<u8>, from: int)
    requires
        0 <= from <= word.len(),
    ensures
        from <= digits_end(word, from) <= word.len(),
        forall|k: int| from <= k < digits_end(word, from) ==> is_digit(#[trigger] word[k]),
        digits_end(word, from) < word.len() ==> !is_digit(word[digits_end(word, from)]),
    decreases word.len() - from,
{
    if from < word.len() && is_digit(word[from]) {
        lemma_digits_end(word, from + 1);
    }
}

/// Finds the line feed that ends the line which holds index `from`.
pub fn find_line_end(data: &[u8], from: usize) -> (end: usize)
    requires
        from <= data@.len(),
    ensures
        end as int == line_end(data@, from as int),
        from <= end <= data@.len(),
{
    let mut i: usize = from;
    while i < data.len() && data[i] != 10
        invariant
            from <= i <= data@.len(),
            line_end(data@, i as int) == line_end(data@, from as int),
        decreases data@.len() - i,
    {
        i = i + 1;
    }
    i
}

/// Finds the start of the next word from `from` on, below `limit`.
pub fn find_word_start(data: &[u8], from: usize, limit: usize) -> (start: usize)
    requires
        from <= limit <= data@.len(),
    ensures
        start as int == word_start(data@, from as int, limit as int),
        from <= start <= limit,
{
    let mut i: usize = from;
    while i < limit && (data[i] == 32 || (9 <= data[i] && data[i] <= 13))
        invariant
            from <= i <= limit <= data@.len(),
            word_start(data@, i as int, limit as int) == word_start(
                data@,
                from as int,
                limit as int,
            ),
        decreases limit - i,
    {
        i = i + 1;
    }
    i
}

/// Finds the end of the word that starts at `from`, below `limit`.
pub fn find_word_end(data: &[u8], from: usize, limit: usize) -> (end: usize)
    requires
        from <= limit <= data@.len(),
    ensures
        end as int == word_end(data@, from as int, limit as int),
        from <= end <= limit,
{
    let mut i: usize = from;
    while i < limit && !(data[i] == 32 || (9 <= data[i] && data[i] <= 13))
        invariant
            from <= i <= limit <= data@.len(),
            word_end(data@, i as int, limit as int) == word_end(data@, from as int, limit as int),
        decreases limit - i,
    {
        i = i + 1;
    }
    i
}

/// Tells whether the bytes from `start` up to `end` spell `word`.
pub fn spells(data: &[u8], start: usize, end: usize, word: &[u8]) -> (same: bool)
    requires
        start <= end <= data@.len(),
    ensures
        same == (data@.subrange(start as int, end as int) == word@),
{
    if end - start != word.len() {
        return false;
    }
    let mut i: usize = 0;
    while i < word.len()
        invariant
            i <= word@.len(),
            start <= end <= data@.len(),
            end - start == word@.len(),
            forall|k: int| 0 <= k < i ==> data@[start + k] == word@[k],
        decreases word@.len() - i,
    {
        if data[start + i] != word[i] {
            proof {
                assert(data@.subrange(start as int, end as int)[i as int] != word@[i as int]);
            }
            return false;
        }
        i = i + 1;
    }
    proof {
        assert(data@.subrange(start as int, end as int) =~= word@);
    }
    true
}

/// Finds the end of the run of digits that starts at `from`.
fn find_digits_end(word: &[u8], from: usize) -> (end: usize)
    requires
        from <= word@.len(),
    ensures
        end as int == digits_end(word@, from as int),
        from <= end <= word@.len(),
{
    let mut i: usize = from;
    while i < word.len() && 48 <= word[i] && word[i] <= 57
        invariant
            from <= i <= word@.len(),
            digits_end(word@, i as int) == digits_end(word@, from as int),
        decreases word@.len() - i,
    {
        i = i + 1;
    }
    i
}

/// Appends the digits of `word` from `from` up to `to` to the decimal digits
/// of `start`.
fn read_digits(word: &[u8], from: usize, to: usize, start: u64, n: Ghost<nat>) -> (value: u64)
    requires
        from <= to <= word@.len(),
        forall|k: int| from <= k < to ==> is_digit(#[trigger] word@[k]),
        start < pow10(n@),
        n@ + (to - from) <= 18,
    ensures
        value as int == digits_onto(word@, from as int, to as int, start as int),
        value < pow10((n@ + (to - from)) as nat),
{
    let mut value: u64 = start;
    let mut i: usize = from;
    proof {
        lemma_pow10_of_18();
    }
    while i < to
        invariant
            from <= i <= to <= word@.len(),
            forall|k: int| from <= k < to ==> is_digit(#[trigger] word@[k]),
            n@ + (to - from) <= 18,
            value as int == digits_onto(word@, from as int, i as int, start as int),
            value < pow10((n@ + (i - from)) as nat),
            pow10(18) == 1_000_000_000_000_000_000,
        decreases to - i,
    {
        proof {
            lemma_pow10_grows((n@ + (i + 1 - from)) as nat, 18);
            assert(is_digit(word@[i as int]));
        }
        value = value * 10 + (word[i] - 48) as u64;
        i = i + 1;
    }
    value
}

/// Multiplies `value` by ten `times` times, or tells that the product
/// exceeds 32767.
fn times_pow10(value: u64, times: u64) -> (r: Option<u64>)
    ensures
        r.is_some() <==> value * pow10(times as nat) <= 32767,
        r.is_some() ==> r.unwrap() == value * pow10(times as nat),
{
    proof {
        lemma_pow10_grows(0, times as nat);
        assert(value * pow10(times as nat) >= value) by (nonlinear_arith)
            requires
                value >= 0,
                pow10(times as nat) >= 1,
        ;
    }
    if value == 0 {
        proof {
            assert(0 * pow10(times as nat) == 0) by (nonlinear_arith);
        }
        return Some(0);
    }
    if value > 32767 {
        return None;
    }
    let mut v: u64 = value;
    let mut i: u64 = 0;
    proof {
        assert(pow10(0) == 1);
        assert(value * 1 == value) by (nonlinear_arith);
    }
    while i < times && v <= 32767
        invariant
            i <= times,
            value >= 1,
            v as int == value * pow10(i as nat),
            v <= 327670,
        decreases times - i,
    {
        proof {
            assert(value * (10 * pow10(i as nat)) == 10 * (value * pow10(i as nat)))
                by (nonlinear_arith);
        }
        v = v * 10;
        i = i + 1;
    }
    proof {
        lemma_pow10_grows(i as nat, times as nat);
        assert(value * pow10(times as nat) >= value * pow10(i as nat)) by (nonlinear_arith)
            requires
                value >= 1,
                pow10(times as nat) >= pow10(i as nat),
        ;
    }
    if v <= 32767 {
        Some(v)
    } else {
        None
    }
}

/// Divides `value` by ten `times` times, rounding down.
fn over_pow10(value: u128, times: u64) -> (r: u128)
    ensures
        r as int == value as int / (pow10(times as nat) as int),
{
    let mut v: u128 = value;
    let mut i: u64 = 0;
    proof {
        assert(pow10(0) == 1);
    }
    while i < times && v > 0
        invariant
            i <= times,
            v as int == value as int / (pow10(i as nat) as int),
        decreases times - i,
    {
        proof {
            lemma_pow10_grows(0, i as nat);
            lemma_div_denominator(value as int, pow10(i as nat) as int, 10);
            assert(pow10(i as nat) * 10 == 10 * pow10(i as nat));
        }
        v = v / 10;
        i = i + 1;
    }
    proof {
        if i < times {
            let small = pow10(i as nat) as int;
            let large = pow10(times as nat) as int;
            lemma_pow10_grows(i as nat, times as nat);
            assert(value < small) by (nonlinear_arith)
                requires
                    value as int / small == 0,
                    small > 0,
                    value >= 0,
            ;
            assert(value as int / large == 0) by (nonlinear_arith)
                requires
                    0 <= value < large,
            ;
        }
    }
    v
}

/// Where the parts of a numeral start and end.
struct Parts {
    whole: (usize, usize),
    fraction: (usize, usize),
    has_exponent: bool,
    exponent: (usize, usize),
}

impl Parts {
    /// Whether these are the parts `n`.
    spec fn stands_for(self, n: Numeral) -> bool {
        &&& self.whole.0 == n.whole.0 && self.whole.1 == n.whole.1
        &&& self.fraction.0 == n.fraction.0 && self.fraction.1 == n.fraction.1
        &&& self.has_exponent == n.has_exponent
        &&& self.exponent.0 == n.exponent.0 && self.exponent.1 == n.exponent.1
    }
}

/// Finds the parts of the numeral that the word starts with.
fn split_numeral(word: &[u8]) -> (p: Parts)
    ensures
        p.stands_for(numeral_parts(word@)),
        p.whole.0 <= p.whole.1 <= p.fraction.0 <= p.fraction.1 <= p.exponent.0 <= p.exponent.1
            <= word@.len(),
        forall|k: int| p.whole.0 <= k < p.whole.1 ==> is_digit(#[trigger] word@[k]),
        forall|k: int| p.fraction.0 <= k < p.fraction.1 ==> is_digit(#[trigger] word@[k]),
        forall|k: int| p.exponent.0 <= k < p.exponent.1 ==> is_digit(#[trigger] word@[k]),
{
    let len: usize = word.len();
    let w0: usize = if len > 0 && (word[0] == 45 || word[0] == 43) {
        1
    } else {
        0
    };
    let w1: usize = find_digits_end(word, w0);
    let f0: usize = if w1 < len && word[w1] == 46 {
        w1 + 1
    } else {
        w1
    };
    let f1: usize = find_digits_end(word, f0);
    let has_exponent: bool = f1 < len && (word[f1] == 101 || word[f1] == 69);
    let mut e0: usize = f1;
    let mut e1: usize = f1;
    if has_exponent {
        e0 = if f1 + 1 < len && (word[f1 + 1] == 45 || word[f1 + 1] == 43) {
            f1 + 2
        } else {
            f1 + 1
        };
        e1 = find_digits_end(word, e0);
    }
    proof {
        lemma_digits_end(word@, w0 as int);
        lemma_digits_end(word@, f0 as int);
        lemma_digits_end(word@, e0 as int);
    }
    Parts { whole: (w0, w1), fraction: (f0, f1), has_exponent, exponent: (e0, e1) }
}

/// The magnitude of the numeral with the parts `p`, or `None` if it is more
/// than a scalar holds.
fn read_magnitude(word: &[u8], p: &Parts) -> (r: Option<i32>)
    requires
        p.stands_for(numeral_parts(word@)),
        is_numeral(word@),
        p.whole.0 <= p.whole.1 <= p.fraction.0 <= p.fraction.1 <= p.exponent.0 <= p.exponent.1
            <= word@.len(),
        forall|k: int| p.whole.0 <= k < p.whole.1 ==> is_digit(#[trigger] word@[k]),
        forall|k: int| p.fraction.0 <= k < p.fraction.1 ==> is_digit(#[trigger] word@[k]),
        forall|k: int| p.exponent.0 <= k < p.exponent.1 ==> is_digit(#[trigger] word@[k]),
    ensures
        r.is_some() <==> numeral_magnitude(word@) <= i32::MAX,
        r.is_some() ==> r.unwrap() == numeral_magnitude(word@) && r.unwrap() >= 0,
{
    proof {
        lemma_pow10_of_18();
        lemma_pow10_grows(0, 0);
        lemma_pow10_grows(
            ((p.whole.1 - p.whole.0) + (p.fraction.1 - p.fraction.0)) as nat,
            18,
        );
        lemma_pow10_grows((p.exponent.1 - p.exponent.0) as nat, 4);
    }
    let whole: u64 = read_digits(word, p.whole.0, p.whole.1, 0, Ghost(0));
    let mantissa: u64 = read_digits(
        word,
        p.fraction.0,
        p.fraction.1,
        whole,
        Ghost((p.whole.1 - p.whole.0) as nat),
    );
    let exponent: u64 = read_digits(word, p.exponent.0, p.exponent.1, 0, Ghost(0));
    let exponent_negative: bool = p.has_exponent && p.fraction.1 + 1 < word.len() && word[p.fraction.1
        + 1] == 45;
    let fraction_digits: u64 = (p.fraction.1 - p.fraction.0) as u64;
    assert(mantissa as int == numeral_digits(word@));
    assert(numeral_power(word@) == (if exponent_negative {
        -(exponent as int)
    } else {
        exponent as int
    }) - fraction_digits);
    let power: i64 = (if exponent_negative {
        -(exponent as i64)
    } else {
        exponent as i64
    }) - fraction_digits as i64;
    if power >= 0 {
        match times_pow10(mantissa, power as u64) {
            None => {
                proof {
                    let product = mantissa * pow10(power as nat);
                    assert(product * 65536 > i32::MAX) by (nonlinear_arith)
                        requires
                            product >= 32768,
                    ;
                }
                None
            },
            Some(product) => Some((product * 65536) as i32),
        }
    } else {
        proof {
            assert(mantissa * 65536 <= 1_000_000_000_000_000_000 * 65536) by (nonlinear_arith)
                requires
                    0 <= mantissa <= 1_000_000_000_000_000_000,
            ;
        }
        let magnitude: u128 = over_pow10((mantissa as u128) * 65536, (-power) as u64);
        if magnitude > 2147483647 {
            None
        } else {
            Some(magnitude as i32)
        }
    }
}

/// Reads the word as a decimal numeral and gives the scalar it stands for.
pub fn read_scalar(word: &[u8]) -> (r: Option<i32>)
    ensures
        r == scalar_of_numeral(word@),
{
    proof {
        reveal(scalar_of_numeral);
    }
    let p: Parts = split_numeral(word);
    let digits: usize = (p.whole.1 - p.whole.0) + (p.fraction.1 - p.fraction.0);
    if digits < 1 || digits > 18 || (p.has_exponent && (p.exponent.1 - p.exponent.0 < 1
        || p.exponent.1 - p.exponent.0 > 4)) || p.exponent.1 != word.len() {
        return None;
    }
    let negative: bool = word[0] == 45;
    match read_magnitude(word, &p) {
        None => None,
        Some(magnitude) => if negative {
            Some(-magnitude)
        } else {
            Some(magnitude)
        },
    }
}

/// Reads the word as a number of one to nine digits.
pub fn read_index(word: &[u8]) -> (r: Option<usize>)
    ensures
        r == index_of_word(word@),
{
    let len: usize = word.len();
    if len < 1 || len > 9 || find_digits_end(word, 0) != len {
        return None;
    }
    proof {
        lemma_digits_end(word@, 0);
        lemma_pow10_grows(0, 0);
        lemma_pow10_of_18();
        lemma_pow10_grows(len as nat, 9);
    }
    let value: u64 = read_digits(word, 0, len, 0, Ghost(0));
    Some(value as usize)
}

} // verus!
