//! The run budget: how many seconds the clicking may go on, if it is bounded at all.

use vstd::prelude::*;
use vstd::string::StringSliceAdditionalSpecFns;

verus! {

/// Whether the byte `b` is an ASCII decimal digit.
pub open spec fn is_digit(b: u8) -> bool {
    0x30 <= b <= 0x39
}

/// Whether every byte of `digits` is an ASCII decimal digit.
pub open spec fn all_digits(digits: Seq<u8>) -> bool {
    forall|i: int| 0 <= i < digits.len() ==> is_digit(#[trigger] digits[i])
}

/// The number that the decimal digits `digits` write, the empty sequence writing zero.
pub open spec fn digits_value(digits: Seq<u8>) -> nat
    decreases digits.len(),
{
    if digits.len() == 0 {
        0
    } else {
        digits_value(digits.drop_last()) * 10 + (digits.last() - 0x30) as nat
    }
}

/// The digits of a decimal numeral: the text without its one optional leading `+`.
pub open spec fn unsigned_part(text: Seq<u8>) -> Seq<u8> {
    if text.len() > 0 && text[0] == 0x2b {
        text.skip(1)
    } else {
        text
    }
}

/// The number of seconds that `text` writes: an optional `+`, then one or
/// more decimal digits and nothing else, for a number that fits 64 bits.
/// Any other text writes none.
pub open spec fn decimal_u64(text: Seq<u8>) -> Option<u64> {
    let digits = unsigned_part(text);
    if digits.len() > 0 && all_digits(digits) && digits_value(digits) <= u64::MAX {
        Some(digits_value(digits) as u64)
    } else {
        None
    }
}

/// A longer run of digits never writes a smaller number than its beginning.
proof fn lemma_digits_value_grows(digits: Seq<u8>, n: int)
    requires
        0 <= n <= digits.len(),
        all_digits(digits),
    ensures
        digits_value(digits.take(n)) <= digits_value(digits),
    decreases digits.len() - n,
{
    if n == digits.len() {
        assert(digits.take(n) =~= digits);
    } else {
        let longer = digits.take(n + 1);
        assert(longer.drop_last() =~= digits.take(n));
        assert(is_digit(longer.last()));
        lemma_digits_value_grows(digits, n + 1);
    }
}

/// Reads a count of seconds from `text`, as a decimal numeral of at most 64 bits.
pub fn parse_seconds(text: &str) -> (seconds: Option<u64>)
    ensures
        seconds == decimal_u64(text.spec_bytes()),
{
    let bytes = text.as_bytes();
    let len = bytes.len();
    let first: usize = if len > 0 && bytes[0] == 0x2b {
        1
    } else {
        0
    };
    if first == len {
        return None;
    }
    let ghost digits = unsigned_part(bytes@);
    let mut value: u64 = 0;
    let mut i: usize = first;
    while i < len
        invariant
            first <= i <= len,
            len == bytes@.len(),
            bytes@ == text.spec_bytes(),
            digits == bytes@.skip(first as int),
            digits == unsigned_part(bytes@),
            all_digits(digits.take(i - first)),
            value == digits_value(digits.take(i - first)),
        decreases len - i,
    {
        let b = bytes[i];
        let ghost seen = digits.take(i - first);
        let ghost grown = digits.take(i - first + 1);
        proof {
            assert(grown.drop_last() =~= seen);
            assert(grown.last() == b);
        }
        if b < 0x30 || b > 0x39 {
            assert(!is_digit(digits[i - first]));
            return None;
        }
        let d: u64 = (b - 0x30) as u64;
        if value > (u64::MAX - d) / 10 {
            proof {
                assert(digits_value(grown) > u64::MAX);
                if all_digits(digits) {
                    lemma_digits_value_grows(digits, i - first + 1);
                }
            }
            return None;
        }
        value = value * 10 + d;
        proof {
            assert forall|k: int| 0 <= k < grown.len() implies is_digit(#[trigger] grown[k]) by {
                if k < seen.len() {
                    assert(grown[k] == seen[k]);
                }
            }
        }
        i = i + 1;
    }
    proof {
        assert(digits.take(len - first) =~= digits);
    }
    Some(value)
}

/// An optional bound on the run time, in whole seconds. A missing bound and a
/// bound of zero both mean that the run is unbounded: it then ends only when
/// the pointer is moved or the loop is cancelled from outside.
#[derive(Clone, Copy, Debug, PartialEq, Eq)]
pub struct RunBudget {
    pub seconds: Option<u64>,
}

impl RunBudget {
    /// The bound in effect: the seconds given, if they are more than zero.
    pub open spec fn limit(self) -> Option<nat> {
        match self.seconds {
            Some(n) => if n > 0 {
                Some(n as nat)
            } else {
                None
            },
            None => None,
        }
    }

    /// A budget without a bound.
    pub fn unbounded() -> (budget: RunBudget)
        ensures
            budget.seconds is None,
    {
        RunBudget { seconds: None }
    }

    /// A budget of `seconds` seconds.
    pub fn of_seconds(seconds: u64) -> (budget: RunBudget)
        ensures
            budget.seconds == Some(seconds),
    {
        RunBudget { seconds: Some(seconds) }
    }

    /// The budget that the argument `arg` asks for. A missing argument and one
    /// that is no count of seconds both give the unbounded budget: neither is
    /// an error.
    pub fn from_arg(arg: Option<&str>) -> (budget: RunBudget)
        ensures
            budget.seconds == match arg {
                Some(text) => decimal_u64(text.spec_bytes()),
                None => None,
            },
    {
        match arg {
            Some(text) => RunBudget { seconds: parse_seconds(text) },
            None => RunBudget { seconds: None },
        }
    }

    /// Whether the budget bounds the run.
    pub fn is_bounded(&self) -> (bounded: bool)
        ensures
            bounded == self.limit().is_some(),
    {
        match self.seconds {
            Some(n) => n > 0,
            None => false,
        }
    }
}

/// Text that holds anything but digits after its optional `+`, and text with
/// no digit at all, writes no count: such a budget is unbounded.
pub proof fn lemma_malformed_is_unbounded(text: Seq<u8>, i: int)
    requires
        unsigned_part(text).len() == 0 || (0 <= i < unsigned_part(text).len() && !is_digit(
            unsigned_part(text)[i],
        )),
    ensures
        decimal_u64(text) is None,
        (RunBudget { seconds: decimal_u64(text) }).limit() is None,
{
}

} // verus!
