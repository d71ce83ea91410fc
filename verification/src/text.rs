//! Integers as decimal text: the keys of users and posts in cookies, tokens,
//! paths and forms. Texts are read and written character by character.

use vstd::prelude::*;

verus! {

/// `c` is one of the ten ASCII digits.
pub open spec fn is_digit(c: char) -> bool {
    '0' <= c <= '9'
}

/// The number that the digits of `s` write in base ten; 0 for no digits.
pub open spec fn digits_value(s: Seq<char>) -> int
    decreases s.len(),
{
    if s.len() == 0 {
        0
    } else {
        digits_value(s.drop_last()) * 10 + (s.last() as int - '0' as int)
    }
}

/// `s` is at least one digit and nothing else.
pub open spec fn is_number(s: Seq<char>) -> bool {
    s.len() > 0 && forall|i: int| 0 <= i < s.len() ==> is_digit(#[trigger] s[i])
}

/// `s` begins with a sign, `+` or `-`.
pub open spec fn is_signed(s: Seq<char>) -> bool {
    s.len() > 0 && (s[0] == '-' || s[0] == '+')
}

/// `s` begins with `-`.
pub open spec fn is_negative(s: Seq<char>) -> bool {
    s.len() > 0 && s[0] == '-'
}

/// `s` without its sign, if it has one.
pub open spec fn digits_of(s: Seq<char>) -> Seq<char> {
    if is_signed(s) {
        s.drop_first()
    } else {
        s
    }
}

/// The integer that `s` writes: an optional sign, `+` or `-`, then digits
/// only. `None` for any other text.
pub open spec fn decimal_value(s: Seq<char>) -> Option<int> {
    if !is_number(digits_of(s)) {
        None
    } else if is_negative(s) {
        Some(-digits_value(digits_of(s)))
    } else {
        Some(digits_value(digits_of(s)))
    }
}

/// The integer from `lo` to `hi` that `s` writes, if it writes one.
pub open spec fn decimal_within(s: Seq<char>, lo: int, hi: int) -> Option<int> {
    match decimal_value(s) {
        Some(value) => if lo <= value <= hi {
            Some(value)
        } else {
            None
        },
        None => None,
    }
}

/// The `i32` that `s` writes, if it writes an integer that an `i32` holds.
pub open spec fn decimal_i32(s: Seq<char>) -> Option<i32> {
    match decimal_within(s, i32::MIN as int, i32::MAX as int) {
        Some(value) => Some(value as i32),
        None => None,
    }
}

/// The `i64` that `s` writes, if it writes an integer that an `i64` holds.
pub open spec fn decimal_i64(s: Seq<char>) -> Option<i64> {
    match decimal_within(s, i64::MIN as int, i64::MAX as int) {
        Some(value) => Some(value as i64),
        None => None,
    }
}

/// Why a text writes no integer of the wanted range.
#[derive(Clone, Copy, Debug, PartialEq, Eq, Structural)]
pub enum NumberFault {
    /// The text is empty.
    Empty,
    /// The text is a sign alone, or holds something else than digits.
    InvalidDigit,
    /// The number is above the range.
    TooLarge,
    /// The number is below the range.
    TooSmall,
}

impl NumberFault {
    /// The words that tell of the fault.
    pub open spec fn spec_description(self) -> Seq<char> {
        match self {
            NumberFault::Empty => "cannot parse integer from empty string"@,
            NumberFault::InvalidDigit => "invalid digit found in string"@,
            NumberFault::TooLarge => "number too large to fit in target type"@,
            NumberFault::TooSmall => "number too small to fit in target type"@,
        }
    }

    pub fn description(self) -> (words: &'static str)
        ensures
            words@ == self.spec_description(),
    {
        match self {
            NumberFault::Empty => "cannot parse integer from empty string",
            NumberFault::InvalidDigit => "invalid digit found in string",
            NumberFault::TooLarge => "number too large to fit in target type",
            NumberFault::TooSmall => "number too small to fit in target type",
        }
    }
}

/// Reading `digits` from the left, character `k` is where it shows that
/// they write no number up to `limit`: it is no digit, or with it the
/// number read so far is above `limit`.
pub open spec fn offends(digits: Seq<char>, limit: int, k: int) -> bool {
    0 <= k < digits.len() && (!is_digit(digits[k]) || digits_value(digits.take(k + 1)) > limit)
}

/// The first character of `digits` that offends.
pub open spec fn first_offence(digits: Seq<char>, limit: int) -> int {
    choose|k: int| offends(digits, limit, k) && forall|j: int| 0 <= j < k ==> !offends(digits, limit, j)
}

/// Why `s` writes no integer from `lo` to `hi`, for a text that writes
/// none. A text is read from the left, and what shows first decides: a
/// character that is no digit, or a number out of the range.
pub open spec fn number_fault(s: Seq<char>, lo: int, hi: int) -> NumberFault {
    let digits = digits_of(s);
    let limit = if is_negative(s) {
        -lo
    } else {
        hi
    };
    if s.len() == 0 {
        NumberFault::Empty
    } else if digits.len() == 0 {
        NumberFault::InvalidDigit
    } else if !is_digit(digits[first_offence(digits, limit)]) {
        NumberFault::InvalidDigit
    } else if is_negative(s) {
        NumberFault::TooSmall
    } else {
        NumberFault::TooLarge
    }
}

/// Digits that begin with digits write at least the number of their beginning.
pub proof fn lemma_digits_grow(digits: Seq<char>, k: int)
    requires
        0 <= k <= digits.len(),
        forall|i: int| 0 <= i < digits.len() ==> is_digit(#[trigger] digits[i]),
    ensures
        0 <= digits_value(digits.take(k)) <= digits_value(digits),
    decreases digits.len() - k,
{
    lemma_digits_not_negative(digits.take(k));
    if k == digits.len() {
        assert(digits.take(k) =~= digits);
    } else {
        assert(digits.take(k + 1).drop_last() =~= digits.take(k));
        lemma_digits_grow(digits, k + 1);
    }
}

/// Digits write no negative number.
pub proof fn lemma_digits_not_negative(digits: Seq<char>)
    requires
        forall|i: int| 0 <= i < digits.len() ==> is_digit(#[trigger] digits[i]),
    ensures
        0 <= digits_value(digits),
    decreases digits.len(),
{
    if digits.len() > 0 {
        lemma_digits_not_negative(digits.drop_last());
    }
}

/// Reads the integer from `lo` to `hi` that `text` writes, or says why it
/// writes none. The range must hold 0.
pub fn read_within(text: &str, lo: i64, hi: i64) -> (read: Result<i64, NumberFault>)
    requires
        lo <= 0 <= hi,
    ensures
        match decimal_within(text@, lo as int, hi as int) {
            Some(value) => read == Ok::<i64, NumberFault>(value as i64),
            None => read == Err::<i64, NumberFault>(number_fault(text@, lo as int, hi as int)),
        },
{
    let n = text.unicode_len();
    if n == 0 {
        return Err(NumberFault::Empty);
    }
    let first = text.get_char(0);
    let negative = first == '-';
    let start: usize = if first == '-' || first == '+' {
        1
    } else {
        0
    };
    let ghost digits = digits_of(text@);
    if start == n {
        return Err(NumberFault::InvalidDigit);
    }
    let limit: i128 = if negative {
        -(lo as i128)
    } else {
        hi as i128
    };
    let mut value: i128 = 0;
    let mut i: usize = start;
    while i < n
        invariant
            start <= i <= n,
            n == text@.len(),
            start <= 1,
            digits == digits_of(text@),
            digits.len() == n - start,
            forall|j: int| 0 <= j < digits.len() ==> digits[j] == text@[j + start],
            lo <= 0 <= hi,
            negative == is_negative(text@),
            limit == (if negative {
                -lo
            } else {
                hi as int
            }),
            0 <= value <= limit,
            value == digits_value(digits.take(i - start)),
            forall|j: int| 0 <= j < i - start ==> !offends(digits, limit as int, j),
        decreases n - i,
    {
        let c = text.get_char(i);
        let ghost k = i - start;
        proof {
            assert(digits.take(k + 1).drop_last() =~= digits.take(k));
        }
        if c < '0' || c > '9' {
            proof {
                lemma_first_offence(digits, limit as int, k);
            }
            return Err(NumberFault::InvalidDigit);
        }
        let digit: i128 = (c as u32 - '0' as u32) as i128;
        let next: i128 = value * 10 + digit;
        if next > limit {
            proof {
                lemma_first_offence(digits, limit as int, k);
                if is_number(digits) {
                    lemma_digits_grow(digits, k + 1);
                }
            }
            return Err(
                if negative {
                    NumberFault::TooSmall
                } else {
                    NumberFault::TooLarge
                },
            );
        }
        value = next;
        i += 1;
    }
    proof {
        assert(digits.take(n - start) =~= digits);
        assert forall|j: int| 0 <= j < digits.len() implies is_digit(#[trigger] digits[j]) by {
            assert(!offends(digits, limit as int, j));
        }
    }
    if negative {
        Ok((-value) as i64)
    } else {
        Ok(value as i64)
    }
}

/// The character that offends and has none before it that does is the
/// first offence.
pub proof fn lemma_first_offence(digits: Seq<char>, limit: int, k: int)
    requires
        offends(digits, limit, k),
        forall|j: int| 0 <= j < k ==> !offends(digits, limit, j),
    ensures
        first_offence(digits, limit) == k,
{
}

/// Reads an `i32` from decimal text, or says why the text writes none.
pub fn parse_i32(text: &str) -> (parsed: Result<i32, NumberFault>)
    ensures
        match decimal_i32(text@) {
            Some(value) => parsed == Ok::<i32, NumberFault>(value),
            None => parsed == Err::<i32, NumberFault>(number_fault(text@, i32::MIN as int, i32::MAX as int)),
        },
{
    match read_within(text, i32::MIN as i64, i32::MAX as i64) {
        Ok(value) => Ok(value as i32),
        Err(fault) => Err(fault),
    }
}

/// Reads an `i64` from decimal text, or says why the text writes none.
pub fn parse_i64(text: &str) -> (parsed: Result<i64, NumberFault>)
    ensures
        match decimal_i64(text@) {
            Some(value) => parsed == Ok::<i64, NumberFault>(value),
            None => parsed == Err::<i64, NumberFault>(number_fault(text@, i64::MIN as int, i64::MAX as int)),
        },
{
    read_within(text, i64::MIN, i64::MAX)
}

/// The key that `text` writes, if it writes one.
pub fn read_id(text: &str) -> (id: Option<i32>)
    ensures
        id == decimal_i32(text@),
{
    match parse_i32(text) {
        Ok(value) => Some(value),
        Err(_) => None,
    }
}

/// The digit that writes `d`, for `d` from 0 to 9.
pub open spec fn digit_char(d: int) -> char {
    if d == 0 {
        '0'
    } else if d == 1 {
        '1'
    } else if d == 2 {
        '2'
    } else if d == 3 {
        '3'
    } else if d == 4 {
        '4'
    } else if d == 5 {
        '5'
    } else if d == 6 {
        '6'
    } else if d == 7 {
        '7'
    } else if d == 8 {
        '8'
    } else {
        '9'
    }
}

/// `n` in base ten, without leading zeros.
pub open spec fn nat_text(n: nat) -> Seq<char>
    decreases n,
{
    if n < 10 {
        seq![digit_char(n as int)]
    } else {
        nat_text(n / 10).push(digit_char((n % 10) as int))
    }
}

/// `v` in base ten: a `-` for a negative number, then its magnitude without
/// leading zeros.
pub open spec fn decimal_text(v: int) -> Seq<char> {
    if v < 0 {
        seq!['-'] + nat_text((-v) as nat)
    } else {
        nat_text(v as nat)
    }
}

fn digit_str(d: u32) -> (s: &'static str)
    requires
        d < 10,
    ensures
        s@ == seq![digit_char(d as int)],
{
    proof {
        reveal_strlit("0");
        reveal_strlit("1");
        reveal_strlit("2");
        reveal_strlit("3");
        reveal_strlit("4");
        reveal_strlit("5");
        reveal_strlit("6");
        reveal_strlit("7");
        reveal_strlit("8");
        reveal_strlit("9");
    }
    let s = if d == 0 {
        "0"
    } else if d == 1 {
        "1"
    } else if d == 2 {
        "2"
    } else if d == 3 {
        "3"
    } else if d == 4 {
        "4"
    } else if d == 5 {
        "5"
    } else if d == 6 {
        "6"
    } else if d == 7 {
        "7"
    } else if d == 8 {
        "8"
    } else {
        "9"
    };
    s
}

/// Writes a key as decimal text.
pub fn id_text(v: i32) -> (text: String)
    ensures
        text@ == decimal_text(v as int),
{
    let negative = v < 0;
    let magnitude: u32 = if negative {
        (-(v as i64)) as u32
    } else {
        v as u32
    };
    let mut rest: u32 = magnitude / 10;
    let mut text: String = digit_str(magnitude % 10).to_owned();
    while rest > 0
        invariant
            nat_text(magnitude as nat) == (if rest > 0 {
                nat_text(rest as nat)
            } else {
                Seq::<char>::empty()
            }) + text@,
        decreases rest,
    {
        let digit: String = digit_str(rest % 10).to_owned();
        text = digit.concat(text.as_str());
        rest = rest / 10;
    }
    if negative {
        proof {
            reveal_strlit("-");
        }
        let sign: String = "-".to_owned();
        text = sign.concat(text.as_str());
    }
    text
}

/// The digits of a number are digits, and their value is the number.
pub proof fn lemma_nat_text(n: nat)
    ensures
        is_number(nat_text(n)),
        digits_value(nat_text(n)) == n,
    decreases n,
{
    if n < 10 {
        let s = nat_text(n);
        assert(digits_value(s.drop_last()) == 0);
    } else {
        lemma_nat_text(n / 10);
        let s = nat_text(n);
        assert(s.drop_last() =~= nat_text(n / 10));
    }
}

/// Text that was written from a key reads back as that key.
pub proof fn lemma_read_what_was_written(v: i32)
    ensures
        decimal_i32(decimal_text(v as int)) == Some(v),
{
    if v < 0 {
        lemma_nat_text((-v) as nat);
        assert(decimal_text(v as int).drop_first() =~= nat_text((-v) as nat));
    } else {
        lemma_nat_text(v as nat);
    }
}

/// Whether two texts are the same, character by character.
pub fn same_text(a: &str, b: &str) -> (same: bool)
    ensures
        same == (a@ == b@),
{
    let left: String = a.to_owned();
    let right: String = b.to_owned();
    left == right
}

/// `head` followed by `tail`.
pub fn join(head: &str, tail: &str) -> (joined: String)
    ensures
        joined@ == head@ + tail@,
{
    let start: String = head.to_owned();
    start.concat(tail)
}

} // verus!
