use vstd::prelude::*;
use vstd::string::StringSliceAdditionalSpecFns;

verus! {

/// The whole seconds of a duration, as `Duration::as_secs` gives them.
pub uninterp spec fn duration_secs(duration: core::time::Duration) -> u64;

/// The part of a duration below one second, in nanoseconds, as
/// `Duration::subsec_nanos` gives it.
pub uninterp spec fn duration_subsec_nanos(duration: core::time::Duration) -> u32;

/// `Duration::from_secs`. The standard library documents that the result
/// holds the given number of whole seconds and nothing below a second.
/// Verus takes this on trust.
#[verifier::external_body]
pub(crate) fn duration_from_secs(secs: u64) -> (duration: core::time::Duration)
    ensures
        duration_secs(duration) == secs,
        duration_subsec_nanos(duration) == 0,
{
    core::time::Duration::from_secs(secs)
}

/// A text is no duration with unit: it should be one to three decimal
/// digits and then one of the units `s`, `m`, `h` and `d`.
#[derive(Debug, Clone, Copy, PartialEq, Eq, Structural)]
pub struct DurationFormatError;

impl DurationFormatError {
    /// What to tell the user.
    pub fn message(&self) -> (message: &'static str)
        ensures
            message@ == "Invalid duration format: `[0-9]+[smhd]`"@,
    {
        "Invalid duration format: `[0-9]+[smhd]`"
    }
}

/// The byte is an ASCII decimal digit.
pub open spec fn is_digit(byte: u8) -> bool {
    0x30 <= byte <= 0x39
}

/// The seconds that one unit letter stands for: `s` a second, `m` a
/// minute, `h` an hour, `d` a day.
pub open spec fn unit_secs(byte: u8) -> Option<u64> {
    if byte == 0x73 {
        Some(1)
    } else if byte == 0x6d {
        Some(60)
    } else if byte == 0x68 {
        Some(3600)
    } else if byte == 0x64 {
        Some(86400)
    } else {
        None
    }
}

/// The number that a string of decimal digits writes.
pub open spec fn digits_value(digits: Seq<u8>) -> nat
    decreases digits.len(),
{
    if digits.len() == 0 {
        0
    } else {
        digits_value(digits.drop_last()) * 10 + (digits.last() - 0x30) as nat
    }
}

/// The text, given by its bytes, is a duration with unit: one to three
/// decimal digits, then one unit letter, and nothing else.
pub open spec fn is_duration_with_unit(bytes: Seq<u8>) -> bool {
    &&& 2 <= bytes.len() <= 4
    &&& forall|i: int| 0 <= i < bytes.len() - 1 ==> is_digit(#[trigger] bytes[i])
    &&& unit_secs(bytes.last()) is Some
}

/// The seconds of a duration with unit.
pub open spec fn duration_with_unit_secs(bytes: Seq<u8>) -> nat {
    digits_value(bytes.drop_last()) * unit_secs(bytes.last()).unwrap() as nat
}

/// The seconds that a duration with unit like `1s`, `2m`, `3h` or `5d`
/// stands for. Every other text is refused.
pub fn parse_duration_secs(duration_with_unit_str: &str) -> (parsed: Result<
    u64,
    DurationFormatError,
>)
    ensures
        match parsed {
            Ok(secs) => is_duration_with_unit(duration_with_unit_str.spec_bytes()) && secs
                == duration_with_unit_secs(duration_with_unit_str.spec_bytes()),
            Err(_) => !is_duration_with_unit(duration_with_unit_str.spec_bytes()),
        },
{
    let bytes = duration_with_unit_str.as_bytes();
    let len = bytes.len();
    if len < 2 || len > 4 {
        return Err(DurationFormatError);
    }
    let ghost digits = bytes@.drop_last();
    let mut value: u64 = 0;
    let mut i: usize = 0;
    while i < len - 1
        invariant
            2 <= len <= 4,
            len == bytes@.len(),
            bytes@ == duration_with_unit_str.spec_bytes(),
            digits == bytes@.drop_last(),
            i <= len - 1,
            forall|j: int| 0 <= j < i ==> is_digit(#[trigger] bytes@[j]),
            value == digits_value(digits.take(i as int)),
            i == 0 ==> value == 0,
            i == 1 ==> value <= 9,
            i == 2 ==> value <= 99,
            i == 3 ==> value <= 999,
        decreases len - 1 - i,
    {
        let byte = bytes[i];
        if byte < 0x30 || byte > 0x39 {
            assert(!is_digit(bytes@[i as int]));
            return Err(DurationFormatError);
        }
        proof {
            assert(digits.take(i + 1).drop_last() =~= digits.take(i as int));
            assert(digits.take(i + 1).last() == byte);
        }
        value = value * 10 + (byte - 0x30) as u64;
        i += 1;
    }
    proof {
        assert(digits.take(i as int) =~= digits);
    }
    let unit = bytes[len - 1];
    let unit_secs: u64 = if unit == 0x73 {
        1
    } else if unit == 0x6d {
        60
    } else if unit == 0x68 {
        3600
    } else if unit == 0x64 {
        86400
    } else {
        return Err(DurationFormatError);
    };
    assert(value * unit_secs <= 999 * 86400) by (nonlinear_arith)
        requires
            value <= 999,
            unit_secs <= 86400,
    ;
    Ok(value * unit_secs)
}

/// Parses a duration with unit like `1s`, `2m`, `3h` or `5d`.
pub fn parse_duration_with_unit(duration_with_unit_str: &str) -> (parsed: Result<
    core::time::Duration,
    DurationFormatError,
>)
    ensures
        match parsed {
            Ok(duration) => is_duration_with_unit(duration_with_unit_str.spec_bytes())
                && duration_secs(duration) == duration_with_unit_secs(
                duration_with_unit_str.spec_bytes(),
            ) && duration_subsec_nanos(duration) == 0,
            Err(_) => !is_duration_with_unit(duration_with_unit_str.spec_bytes()),
        },
{
    match parse_duration_secs(duration_with_unit_str) {
        Ok(secs) => Ok(duration_from_secs(secs)),
        Err(error) => Err(error),
    }
}

} // verus!
