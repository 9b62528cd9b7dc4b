//! The first generation of the aggregator: answers as scaled integers.

use vstd::prelude::*;

verus! {

/// Ten to the power `n`.
pub open spec fn pow10(n: nat) -> nat
    decreases n,
{
    if n == 0 {
        1
    } else {
        10 * pow10((n - 1) as nat)
    }
}

/// Powers of ten grow with the exponent.
pub proof fn lemma_pow10_monotonic(m: nat, n: nat)
    requires
        m <= n,
    ensures
        0 < pow10(m) <= pow10(n),
    decreases n,
{
    if m < n {
        lemma_pow10_monotonic(m, (n - 1) as nat);
    } else if m > 0 {
        lemma_pow10_monotonic((m - 1) as nat, (n - 1) as nat);
    }
}

/// The whole number `i` as a fixed-point value with `decimals` decimal places.
pub fn decimal(i: usize, decimals: u8) -> (r: u128)
    requires
        i * pow10(decimals as nat) <= u128::MAX,
        pow10(decimals as nat) <= u128::MAX,
    ensures
        r == i * pow10(decimals as nat),
{
    let mut scale: u128 = 1;
    let mut k: u8 = 0;
    while k < decimals
        invariant
            0 <= k <= decimals,
            scale == pow10(k as nat),
            pow10(decimals as nat) <= u128::MAX,
        decreases decimals - k,
    {
        proof {
            lemma_pow10_monotonic((k + 1) as nat, decimals as nat);
        }
        scale = scale * 10;
        k += 1;
    }
    (i as u128) * scale
}

/// Errors that the first-generation program may return.
#[derive(Clone, Copy, Debug, PartialEq, Eq, Structural)]
pub enum Error {
    /// Lamport balance below rent-exempt threshold.
    NotRentExempt,
    /// Insufficient funds for the operation requested.
    InsufficientFunds,
    /// Owner does not match.
    OwnerMismatch,
    /// Missing signature.
    MissingSignature,
    /// Invalid oracle
    InvalidOracle,
    /// The account cannot be initialized because it is already being used.
    AlreadyInUse,
    /// State is uninitialized.
    UninitializedState,
    /// Invalid instruction
    InvalidInstruction,
    /// State is invalid for requested operation.
    InvalidState,
    /// Operation overflowed
    Overflow,
}

impl Error {
    /// The number under which the runtime reports the error.
    pub fn code(&self) -> (r: u32)
        ensures
            r == match *self {
                Error::NotRentExempt => 0u32,
                Error::InsufficientFunds => 1u32,
                Error::OwnerMismatch => 2u32,
                Error::MissingSignature => 3u32,
                Error::InvalidOracle => 4u32,
                Error::AlreadyInUse => 5u32,
                Error::UninitializedState => 6u32,
                Error::InvalidInstruction => 7u32,
                Error::InvalidState => 8u32,
                Error::Overflow => 9u32,
            },
    {
        match self {
            Error::NotRentExempt => 0,
            Error::InsufficientFunds => 1,
            Error::OwnerMismatch => 2,
            Error::MissingSignature => 3,
            Error::InvalidOracle => 4,
            Error::AlreadyInUse => 5,
            Error::UninitializedState => 6,
            Error::InvalidInstruction => 7,
            Error::InvalidState => 8,
            Error::Overflow => 9,
        }
    }

    /// The error in words.
    pub fn message(&self) -> (r: &'static str)
        ensures
            r@ == match *self {
                Error::NotRentExempt => "Lamport balance below rent-exempt threshold"@,
                Error::InsufficientFunds => "Insufficient funds"@,
                Error::OwnerMismatch => "Owner does not match"@,
                Error::MissingSignature => "Missing signature"@,
                Error::InvalidOracle => "Invalid oracle"@,
                Error::AlreadyInUse => "Already in use"@,
                Error::UninitializedState => "State is uninitialized"@,
                Error::InvalidInstruction => "Invalid instruction"@,
                Error::InvalidState => "State is invalid for requested operation"@,
                Error::Overflow => "Operation overflowed"@,
            },
    {
        match self {
            Error::NotRentExempt => "Lamport balance below rent-exempt threshold",
            Error::InsufficientFunds => "Insufficient funds",
            Error::OwnerMismatch => "Owner does not match",
            Error::MissingSignature => "Missing signature",
            Error::InvalidOracle => "Invalid oracle",
            Error::AlreadyInUse => "Already in use",
            Error::UninitializedState => "State is uninitialized",
            Error::InvalidInstruction => "Invalid instruction",
            Error::InvalidState => "State is invalid for requested operation",
            Error::Overflow => "Operation overflowed",
        }
    }
}

/// A price with its number of decimal places.
#[derive(Clone, Copy, Debug, PartialEq, Eq, Structural)]
pub struct Decimal {
    pub value: u128,
    pub decimals: u32,
}

impl Decimal {
    /// The price `value` with `decimals` decimal places.
    pub fn new(value: u128, decimals: u32) -> (r: Decimal)
        ensures
            r.value == value,
            r.decimals == decimals,
    {
        Decimal { value, decimals }
    }
}

/// The character of a decimal digit.
pub open spec fn digit_char(d: nat) -> char {
    if d == 0 {
        '0'
    } else if d == 1 {
        '1'
    } else if d == 2 {
        '2'
    } else if d == 3 {
        '3'
    } else if d == 4 {
        '4'
    } else if d == 5 {
        '5'
    } else if d == 6 {
        '6'
    } else if d == 7 {
        '7'
    } else if d == 8 {
        '8'
    } else {
        '9'
    }
}

/// The decimal digits of a number, the highest first, without leading zeros.
pub open spec fn digits(v: nat) -> Seq<nat>
    decreases v,
{
    if v < 10 {
        seq![v]
    } else {
        digits(v / 10).push(v % 10)
    }
}

/// Digits as characters.
pub open spec fn digit_chars(ds: Seq<nat>) -> Seq<char> {
    Seq::new(ds.len(), |i: int| digit_char(ds[i]))
}

/// A price written out: its digits with a point before the last
/// `decimals` of them, after "0." and zeros where there are not more digits
/// than decimal places.
pub open spec fn written(value: u128, decimals: u32) -> Seq<char> {
    let scaled = digit_chars(digits(value as nat));
    if scaled.len() <= decimals {
        seq!['0', '.'] + Seq::new((decimals - scaled.len()) as nat, |i: int| '0') + scaled
    } else {
        scaled.take(scaled.len() - decimals) + seq!['.'] + scaled.skip(scaled.len() - decimals)
    }
}

/// Appends the decimal digits of `v`.
pub fn push_digits(out: &mut Vec<u8>, v: u128)
    ensures
        final(out)@.len() == old(out)@.len() + digits(v as nat).len(),
        forall|i: int| 0 <= i < old(out)@.len() ==> final(out)@[i] == old(out)@[i],
        forall|i: int|
            0 <= i < digits(v as nat).len() ==> final(out)@[old(out)@.len() + i] == digits(
                v as nat,
            )[i],
    decreases v,
{
    if v >= 10 {
        push_digits(out, v / 10);
    }
    out.push((v % 10) as u8);
}

/// Appends the character of the digit `d`.
pub fn append_digit(text: &mut String, d: u8)
    requires
        d < 10,
    ensures
        final(text)@ == old(text)@.push(digit_char(d as nat)),
{
    proof {
        reveal_strlit("0");
        reveal_strlit("1");
        reveal_strlit("2");
        reveal_strlit("3");
        reveal_strlit("4");
        reveal_strlit("5");
        reveal_strlit("6");
        reveal_strlit("7");
        reveal_strlit("8");
        reveal_strlit("9");
    }
    if d == 0 {
        text.append("0");
    } else if d == 1 {
        text.append("1");
    } else if d == 2 {
        text.append("2");
    } else if d == 3 {
        text.append("3");
    } else if d == 4 {
        text.append("4");
    } else if d == 5 {
        text.append("5");
    } else if d == 6 {
        text.append("6");
    } else if d == 7 {
        text.append("7");
    } else if d == 8 {
        text.append("8");
    } else {
        text.append("9");
    }
    proof {
        assert(text@ =~= old(text)@.push(digit_char(d as nat)));
    }
}

impl Decimal {
    /// The price written out with its decimal point.
    pub fn to_string(&self) -> (text: String)
        ensures
            text@ == written(self.value, self.decimals),
    {
        let mut scaled: Vec<u8> = Vec::new();
        push_digits(&mut scaled, self.value);
        let ghost ds = digits(self.value as nat);
        let ghost chars = digit_chars(ds);
        proof {
            lemma_digits_below_ten(self.value as nat);
        }
        let n = scaled.len();
        let decimals = self.decimals as usize;
        let mut text = String::new();
        let point: usize = if n <= decimals {
            proof {
                reveal_strlit("0.");
            }
            text.append("0.");
            let mut k: usize = 0;
            while k < decimals - n
                invariant
                    0 <= k <= decimals - n,
                    n <= decimals,
                    text@ == seq!['0', '.'] + Seq::new(k as nat, |i: int| '0'),
                decreases decimals - n - k,
            {
                proof {
                    reveal_strlit("0");
                }
                text.append("0");
                proof {
                    assert(text@ =~= seq!['0', '.'] + Seq::new((k + 1) as nat, |i: int| '0'));
                }
                k += 1;
            }
            0
        } else {
            n - decimals
        };
        let ghost head = text@;
        // the digits before the point
        let mut i: usize = 0;
        while i < point
            invariant
                0 <= i <= point <= n,
                n == ds.len(),
                chars == digit_chars(ds),
                scaled@.len() == n,
                forall|j: int| 0 <= j < n ==> #[trigger] scaled@[j] == ds[j] && ds[j] < 10,
                text@ == head + chars.take(i as int),
            decreases point - i,
        {
            append_digit(&mut text, scaled[i]);
            proof {
                assert(chars[i as int] == digit_char(ds[i as int]));
                assert(chars.take(i + 1) =~= chars.take(i as int).push(chars[i as int]));
                assert(text@ =~= head + chars.take(i + 1));
            }
            i += 1;
        }
        if n > decimals {
            proof {
                reveal_strlit(".");
            }
            text.append(".");
        }
        let ghost mid = text@;
        proof {
            assert(chars.subrange(point as int, point as int) =~= Seq::<char>::empty());
            assert(text@ =~= mid + chars.subrange(point as int, point as int));
        }
        // and those behind it
        while i < n
            invariant
                point <= i <= n,
                n == ds.len(),
                chars == digit_chars(ds),
                scaled@.len() == n,
                forall|j: int| 0 <= j < n ==> #[trigger] scaled@[j] == ds[j] && ds[j] < 10,
                text@ == mid + chars.subrange(point as int, i as int),
            decreases n - i,
        {
            append_digit(&mut text, scaled[i]);
            proof {
                assert(chars[i as int] == digit_char(ds[i as int]));
                assert(chars.subrange(point as int, i + 1) =~= chars.subrange(
                    point as int,
                    i as int,
                ).push(chars[i as int]));
                assert(text@ =~= mid + chars.subrange(point as int, i + 1));
            }
            i += 1;
        }
        proof {
            assert(chars.subrange(point as int, n as int) =~= chars.skip(point as int));
            if n <= decimals {
                assert(chars.take(0) =~= Seq::<char>::empty());
                assert(chars.skip(0) =~= chars);
                assert(text@ =~= written(self.value, self.decimals));
            } else {
                assert(text@ =~= written(self.value, self.decimals));
            }
        }
        text
    }
}

/// A number has at least one digit, and every digit is below ten.
pub proof fn lemma_digits_below_ten(v: nat)
    ensures
        digits(v).len() >= 1,
        forall|i: int| 0 <= i < digits(v).len() ==> #[trigger] digits(v)[i] < 10,
    decreases v,
{
    if v >= 10 {
        lemma_digits_below_ten(v / 10);
    }
}

} // verus!
