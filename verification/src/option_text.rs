//! How overrides are written: a name, and a value after an equals sign.

use vstd::prelude::*;
use vstd::string::*;
use crate::measure::{double, Measure, ZERO};
use crate::options::FastThresholdScale;
use crate::overrides::DetectionOptionOverride;

verus! {

/// Largest share of blocks that can be masked: 0.95
pub const MAX_MASK_PERCENT: u64 = 0x3FEE_6666_6666_6666;

/// The options that can be overridden.
#[derive(Debug, Clone, Copy, PartialEq, Eq, Structural)]
pub enum OptionKey {
    FlashDetection,
    Lookahead,
    FastThresholdScale,
    ForwardSimilarity,
    ForwardSimilarityFrames,
    ForwardSimilarityMinOffset,
    ForwardSimilarityThreshold,
    ForwardSimilarityMaskPercent,
    ForwardSimilarityRequireReturnCandidate,
    ForwardSimilaritySuppressInside,
    TransientSimilarity,
    TransientSimilarityFrames,
    TransientSimilarityThreshold,
    TransientSimilarityDarkThreshold,
    TransientSimilarityMaskPercent,
}

/// The name of an option.
pub open spec fn name_of(key: OptionKey) -> Seq<char> {
    match key {
        OptionKey::FlashDetection => "flash-detection"@,
        OptionKey::Lookahead => "lookahead"@,
        OptionKey::FastThresholdScale => "fast-threshold-scale"@,
        OptionKey::ForwardSimilarity => "forward-similarity"@,
        OptionKey::ForwardSimilarityFrames => "forward-similarity-frames"@,
        OptionKey::ForwardSimilarityMinOffset => "forward-similarity-min-offset"@,
        OptionKey::ForwardSimilarityThreshold => "forward-similarity-threshold"@,
        OptionKey::ForwardSimilarityMaskPercent => "forward-similarity-mask-percent"@,
        OptionKey::ForwardSimilarityRequireReturnCandidate => "forward-similarity-require-return-candidate"@,
        OptionKey::ForwardSimilaritySuppressInside => "forward-similarity-suppress-inside"@,
        OptionKey::TransientSimilarity => "transient-similarity"@,
        OptionKey::TransientSimilarityFrames => "transient-similarity-frames"@,
        OptionKey::TransientSimilarityThreshold => "transient-similarity-threshold"@,
        OptionKey::TransientSimilarityDarkThreshold => "transient-similarity-dark-threshold"@,
        OptionKey::TransientSimilarityMaskPercent => "transient-similarity-mask-percent"@,
    }
}

/// The option of a name.
pub open spec fn key_of(name: Seq<char>) -> Option<OptionKey> {
    if exists|key: OptionKey| name_of(key) == name {
        Some(choose|key: OptionKey| name_of(key) == name)
    } else {
        None
    }
}

/// Whether an option is switched on or off, and so may be written without a value.
pub open spec fn is_switch(key: OptionKey) -> bool {
    match key {
        OptionKey::FlashDetection => true,
        OptionKey::ForwardSimilarity => true,
        OptionKey::ForwardSimilarityRequireReturnCandidate => true,
        OptionKey::ForwardSimilaritySuppressInside => true,
        OptionKey::TransientSimilarity => true,
        _ => false,
    }
}

/// Whether a name is that of an option that requires a value.
pub open spec fn requires_value(name: Seq<char>) -> bool {
    key_of(name) matches Some(key) && !is_switch(key)
}

/// How a value was read as a number.
#[derive(Debug, Clone, Copy, PartialEq, Eq, Structural)]
pub enum NumberReading {
    /// It is no number.
    Malformed,
    /// It is a number, but not a finite one.
    NotFinite,
    /// It is a finite number.
    Finite { value: Measure },
}

/// Error returned when parsing a controlled scene detection option override.
#[derive(Debug)]
pub enum ParseDetectionOptionOverrideError {
    /// The provided option string is empty.
    Empty,
    /// The option name is not in the controlled allowlist.
    UnknownOption(String),
    /// The option requires an explicit value but none was provided.
    MissingValue(String),
    /// The option value could not be parsed or is outside the accepted range.
    InvalidValue {
        /// The rejected option name.
        name: String,
        /// The rejected raw value.
        value: String,
        /// Short description of accepted values.
        expected: &'static str,
    },
}

/// What an error says.
pub enum ParseFailure {
    Empty,
    UnknownOption(Seq<char>),
    MissingValue(Seq<char>),
    InvalidValue { name: Seq<char>, value: Seq<char>, expected: Seq<char> },
}

impl View for ParseDetectionOptionOverrideError {
    type V = ParseFailure;

    open spec fn view(&self) -> ParseFailure {
        match self {
            ParseDetectionOptionOverrideError::Empty => ParseFailure::Empty,
            ParseDetectionOptionOverrideError::UnknownOption(name) => ParseFailure::UnknownOption(
                name@,
            ),
            ParseDetectionOptionOverrideError::MissingValue(name) => ParseFailure::MissingValue(
                name@,
            ),
            ParseDetectionOptionOverrideError::InvalidValue { name, value, expected } =>
                ParseFailure::InvalidValue { name: name@, value: value@, expected: expected@ },
        }
    }
}

impl ParseDetectionOptionOverrideError {
    /// The error in words.
    pub fn message(&self) -> (text: String)
        ensures
            text@ == match self@ {
                ParseFailure::Empty => "empty av-scenechange option"@,
                ParseFailure::UnknownOption(name) => "unknown av-scenechange option '"@ + name
                    + "'"@,
                ParseFailure::MissingValue(name) => "av-scenechange option '"@ + name
                    + "' requires a value"@,
                ParseFailure::InvalidValue { name, value, expected } => "invalid value '"@ + value
                    + "' for av-scenechange option '"@ + name + "' (expected "@ + expected + ")"@,
            },
    {
        match self {
            ParseDetectionOptionOverrideError::Empty => "empty av-scenechange option".to_owned(),
            ParseDetectionOptionOverrideError::UnknownOption(name) => {
                let mut text: String = "unknown av-scenechange option '".to_owned();
                text.append(name.as_str());
                text.append("'");
                text
            },
            ParseDetectionOptionOverrideError::MissingValue(name) => {
                let mut text: String = "av-scenechange option '".to_owned();
                text.append(name.as_str());
                text.append("' requires a value");
                text
            },
            ParseDetectionOptionOverrideError::InvalidValue { name, value, expected } => {
                let mut text: String = "invalid value '".to_owned();
                text.append(value.as_str());
                text.append("' for av-scenechange option '");
                text.append(name.as_str());
                text.append("' (expected ");
                text.append(expected);
                text.append(")");
                text
            },
        }
    }
}

/// Whether two texts are the same.
fn same_text(left: &str, right: &str) -> (same: bool)
    ensures
        same == (left@ == right@),
{
    let length: usize = left.unicode_len();
    if length != right.unicode_len() {
        return false;
    }
    for index in 0..length
        invariant
            length == left@.len(),
            length == right@.len(),
            forall|k: int| 0 <= k < index ==> left@[k] == right@[k],
    {
        if left.get_char(index) != right.get_char(index) {
            assert(left@[index as int] != right@[index as int]);
            return false;
        }
    }
    assert(left@ =~= right@);
    true
}

/// Returns the controlled list of option names accepted by
/// [`DetectionOptionOverride`]'s string parser.
#[must_use]
pub fn detection_option_override_names() -> (names: Vec<&'static str>)
    ensures
        names@.len() == 15,
        names@[0]@ == "flash-detection"@,
        names@[1]@ == "lookahead"@,
        names@[2]@ == "fast-threshold-scale"@,
        names@[3]@ == "forward-similarity"@,
        names@[4]@ == "forward-similarity-frames"@,
        names@[5]@ == "forward-similarity-min-offset"@,
        names@[6]@ == "forward-similarity-threshold"@,
        names@[7]@ == "forward-similarity-mask-percent"@,
        names@[8]@ == "forward-similarity-require-return-candidate"@,
        names@[9]@ == "forward-similarity-suppress-inside"@,
        names@[10]@ == "transient-similarity"@,
        names@[11]@ == "transient-similarity-frames"@,
        names@[12]@ == "transient-similarity-threshold"@,
        names@[13]@ == "transient-similarity-dark-threshold"@,
        names@[14]@ == "transient-similarity-mask-percent"@,
{
    let mut names: Vec<&'static str> = Vec::new();
    names.push("flash-detection");
    names.push("lookahead");
    names.push("fast-threshold-scale");
    names.push("forward-similarity");
    names.push("forward-similarity-frames");
    names.push("forward-similarity-min-offset");
    names.push("forward-similarity-threshold");
    names.push("forward-similarity-mask-percent");
    names.push("forward-similarity-require-return-candidate");
    names.push("forward-similarity-suppress-inside");
    names.push("transient-similarity");
    names.push("transient-similarity-frames");
    names.push("transient-similarity-threshold");
    names.push("transient-similarity-dark-threshold");
    names.push("transient-similarity-mask-percent");
    names
}

/// Different options have different names.
pub proof fn names_are_distinct(first: OptionKey, second: OptionKey)
    requires
        name_of(first) == name_of(second),
    ensures
        first == second,
{
    reveal_strlit("flash-detection");
    reveal_strlit("lookahead");
    reveal_strlit("fast-threshold-scale");
    reveal_strlit("forward-similarity");
    reveal_strlit("forward-similarity-frames");
    reveal_strlit("forward-similarity-min-offset");
    reveal_strlit("forward-similarity-threshold");
    reveal_strlit("forward-similarity-mask-percent");
    reveal_strlit("forward-similarity-require-return-candidate");
    reveal_strlit("forward-similarity-suppress-inside");
    reveal_strlit("transient-similarity");
    reveal_strlit("transient-similarity-frames");
    reveal_strlit("transient-similarity-threshold");
    reveal_strlit("transient-similarity-dark-threshold");
    reveal_strlit("transient-similarity-mask-percent");
    assert("flash-detection"@.len() == 15);
    assert("lookahead"@.len() == 9);
    assert("fast-threshold-scale"@.len() == 20);
    assert("forward-similarity"@.len() == 18);
    assert("forward-similarity-frames"@.len() == 25);
    assert("forward-similarity-min-offset"@.len() == 29);
    assert("forward-similarity-threshold"@.len() == 28);
    assert("forward-similarity-mask-percent"@.len() == 31);
    assert("forward-similarity-require-return-candidate"@.len() == 43);
    assert("forward-similarity-suppress-inside"@.len() == 34);
    assert("transient-similarity"@.len() == 20);
    assert("transient-similarity-frames"@.len() == 27);
    assert("transient-similarity-threshold"@.len() == 30);
    assert("transient-similarity-dark-threshold"@.len() == 35);
    assert("transient-similarity-mask-percent"@.len() == 33);
    assert("fast-threshold-scale"@[0] == 'f');
    assert("transient-similarity"@[0] == 't');
    assert(name_of(first).len() == name_of(second).len());
}

/// A name holds no equals sign, and does not start with `no-`.
proof fn name_is_plain(key: OptionKey)
    ensures
        name_of(key).len() >= 3,
        name_of(key)[0] != 'n',
        forall|k: int| 0 <= k < name_of(key).len() ==> #[trigger] name_of(key)[k] != '=',
{
    reveal_strlit("flash-detection");
    reveal_strlit("lookahead");
    reveal_strlit("fast-threshold-scale");
    reveal_strlit("forward-similarity");
    reveal_strlit("forward-similarity-frames");
    reveal_strlit("forward-similarity-min-offset");
    reveal_strlit("forward-similarity-threshold");
    reveal_strlit("forward-similarity-mask-percent");
    reveal_strlit("forward-similarity-require-return-candidate");
    reveal_strlit("forward-similarity-suppress-inside");
    reveal_strlit("transient-similarity");
    reveal_strlit("transient-similarity-frames");
    reveal_strlit("transient-similarity-threshold");
    reveal_strlit("transient-similarity-dark-threshold");
    reveal_strlit("transient-similarity-mask-percent");
}

/// The option of a name.
pub fn option_key(name: &str) -> (key: Option<OptionKey>)
    ensures
        key == key_of(name@),
{
    let key: Option<OptionKey> = if same_text(name, "flash-detection") {
        Some(OptionKey::FlashDetection)
    } else if same_text(name, "lookahead") {
        Some(OptionKey::Lookahead)
    } else if same_text(name, "fast-threshold-scale") {
        Some(OptionKey::FastThresholdScale)
    } else if same_text(name, "forward-similarity") {
        Some(OptionKey::ForwardSimilarity)
    } else if same_text(name, "forward-similarity-frames") {
        Some(OptionKey::ForwardSimilarityFrames)
    } else if same_text(name, "forward-similarity-min-offset") {
        Some(OptionKey::ForwardSimilarityMinOffset)
    } else if same_text(name, "forward-similarity-threshold") {
        Some(OptionKey::ForwardSimilarityThreshold)
    } else if same_text(name, "forward-similarity-mask-percent") {
        Some(OptionKey::ForwardSimilarityMaskPercent)
    } else if same_text(name, "forward-similarity-require-return-candidate") {
        Some(OptionKey::ForwardSimilarityRequireReturnCandidate)
    } else if same_text(name, "forward-similarity-suppress-inside") {
        Some(OptionKey::ForwardSimilaritySuppressInside)
    } else if same_text(name, "transient-similarity") {
        Some(OptionKey::TransientSimilarity)
    } else if same_text(name, "transient-similarity-frames") {
        Some(OptionKey::TransientSimilarityFrames)
    } else if same_text(name, "transient-similarity-threshold") {
        Some(OptionKey::TransientSimilarityThreshold)
    } else if same_text(name, "transient-similarity-dark-threshold") {
        Some(OptionKey::TransientSimilarityDarkThreshold)
    } else if same_text(name, "transient-similarity-mask-percent") {
        Some(OptionKey::TransientSimilarityMaskPercent)
    } else {
        None
    };
    proof {
        match key {
            Some(found) => {
                assert(name_of(found) == name@);
                names_are_distinct(found, key_of(name@).unwrap());
            },
            None => {
                if let Some(other) = key_of(name@) {
                    assert(name_of(other) == name@);
                    assert(false);
                }
            },
        }
    }
    key
}

/// A value that is not accepted.
pub open spec fn invalid(name: Seq<char>, value: Seq<char>, expected: Seq<char>) -> ParseFailure {
    ParseFailure::InvalidValue { name, value, expected }
}

/// A switch.
pub open spec fn switch_of(value: Seq<char>) -> Option<bool> {
    if value == "1"@ || value == "true"@ || value == "yes"@ || value == "on"@ {
        Some(true)
    } else if value == "0"@ || value == "false"@ || value == "no"@ || value == "off"@ {
        Some(false)
    } else {
        None
    }
}

/// Whether a character is a decimal digit.
pub open spec fn is_digit(c: char) -> bool {
    '0' <= c && c <= '9'
}

/// The number that decimal digits write.
pub open spec fn digits_value(digits: Seq<char>) -> int
    decreases digits.len(),
{
    if digits.len() == 0 {
        0
    } else {
        digits_value(digits.drop_last()) * 10 + (digits.last() as int - '0' as int)
    }
}

/// The digits of a whole number: what follows a plus sign, or all of it.
pub open spec fn digits_of(value: Seq<char>) -> Seq<char> {
    if value.len() > 0 && value[0] == '+' {
        value.skip(1)
    } else {
        value
    }
}

/// The whole number that a text writes, if it is one and fits a machine number.
pub open spec fn number_of(value: Seq<char>) -> Option<int> {
    let digits = digits_of(value);
    if digits.len() > 0 && (forall|k: int| 0 <= k < digits.len() ==> is_digit(#[trigger] digits[k]))
        && digits_value(digits) <= usize::MAX {
        Some(digits_value(digits))
    } else {
        None
    }
}

/// A scale of the fast threshold.
pub open spec fn scale_of(value: Seq<char>) -> Option<FastThresholdScale> {
    if value == "legacy"@ {
        Some(FastThresholdScale::Legacy)
    } else if value == "sample-range"@ || value == "sample_range"@ {
        Some(FastThresholdScale::SampleRange)
    } else {
        None
    }
}

/// Whether more digits never make a number smaller.
proof fn digits_grow(digits: Seq<char>, upto: int)
    requires
        0 <= upto <= digits.len(),
        forall|k: int| 0 <= k < digits.len() ==> is_digit(#[trigger] digits[k]),
    ensures
        0 <= digits_value(digits.take(upto)) <= digits_value(digits),
    decreases digits.len(),
{
    if upto == digits.len() {
        assert(digits.take(upto) =~= digits);
        if digits.len() > 0 {
            let rest = digits.drop_last();
            assert forall|k: int| 0 <= k < rest.len() implies is_digit(#[trigger] rest[k]) by {
                assert(is_digit(digits[k]));
            }
            digits_grow(rest, rest.len() as int);
            assert(rest.take(rest.len() as int) =~= rest);
            assert(is_digit(digits[digits.len() - 1]));
        }
    } else {
        let rest = digits.drop_last();
        assert forall|k: int| 0 <= k < rest.len() implies is_digit(#[trigger] rest[k]) by {
            assert(is_digit(digits[k]));
        }
        digits_grow(rest, upto);
        assert(rest.take(upto) =~= digits.take(upto));
        assert(is_digit(digits[digits.len() - 1]));
    }
}

/// Reads a whole number, if a text writes one that fits a machine number.
fn read_number(value: &str) -> (number: Option<usize>)
    ensures
        match number {
            Some(n) => number_of(value@) == Some(n as int),
            None => number_of(value@) is None,
        },
{
    let length: usize = value.unicode_len();
    let ghost digits = digits_of(value@);
    let start: usize = if length > 0 && value.get_char(0) == '+' {
        1
    } else {
        0
    };
    if start == length {
        assert(digits.len() == 0);
        return None;
    }
    let mut number: usize = 0;
    for index in start..length
        invariant
            length == value@.len(),
            start <= 1,
            start < length,
            digits == value@.skip(start as int),
            digits == digits_of(value@),
            forall|k: int| 0 <= k < index - start ==> is_digit(#[trigger] digits[k]),
            number == digits_value(digits.take(index - start)),
    {
        let c: char = value.get_char(index);
        assert(digits[index - start] == c);
        if !('0' <= c && c <= '9') {
            return None;
        }
        let digit: usize = (c as u32 - '0' as u32) as usize;
        proof {
            assert(digits.take(index + 1 - start).drop_last() =~= digits.take(index - start));
            assert(digits_value(digits.take(index + 1 - start)) == number * 10 + digit);
            if forall|k: int| 0 <= k < digits.len() ==> is_digit(#[trigger] digits[k]) {
                digits_grow(digits, index + 1 - start);
            }
        }
        let scaled: usize = match number.checked_mul(10) {
            Some(scaled) => scaled,
            None => {
                return None;
            },
        };
        number = match scaled.checked_add(digit) {
            Some(number) => number,
            None => {
                return None;
            },
        };
    }
    assert(digits.take(length - start) =~= digits);
    Some(number)
}

/// What a value of a switch reads.
pub fn parse_bool(name: &str, value: &str) -> (switch: Result<
    bool,
    ParseDetectionOptionOverrideError,
>)
    ensures
        match switch {
            Ok(on) => switch_of(value@) == Some(on),
            Err(error) => switch_of(value@) is None && error@ == invalid(
                name@,
                value@,
                "true|false"@,
            ),
        },
{
    if same_text(value, "1") || same_text(value, "true") || same_text(value, "yes") || same_text(
        value,
        "on",
    ) {
        Ok(true)
    } else if same_text(value, "0") || same_text(value, "false") || same_text(value, "no")
        || same_text(value, "off") {
        Ok(false)
    } else {
        Err(
            ParseDetectionOptionOverrideError::InvalidValue {
                name: name.to_owned(),
                value: value.to_owned(),
                expected: "true|false",
            },
        )
    }
}

/// What a value of a count reads.
pub fn parse_usize(name: &str, value: &str) -> (count: Result<
    usize,
    ParseDetectionOptionOverrideError,
>)
    ensures
        match count {
            Ok(n) => number_of(value@) == Some(n as int),
            Err(error) => number_of(value@) is None && error@ == invalid(
                name@,
                value@,
                "non-negative integer"@,
            ),
        },
{
    match read_number(value) {
        Some(number) => Ok(number),
        None => Err(
            ParseDetectionOptionOverrideError::InvalidValue {
                name: name.to_owned(),
                value: value.to_owned(),
                expected: "non-negative integer",
            },
        ),
    }
}

/// What a value of a count reads that must not be 0.
pub fn parse_positive_usize(name: &str, value: &str) -> (count: Result<
    usize,
    ParseDetectionOptionOverrideError,
>)
    ensures
        match count {
            Ok(n) => number_of(value@) == Some(n as int) && n > 0,
            Err(error) => if number_of(value@) is None {
                error@ == invalid(name@, value@, "non-negative integer"@)
            } else {
                number_of(value@) == Some(0int) && error@ == invalid(
                    name@,
                    value@,
                    "positive integer"@,
                )
            },
        },
{
    match parse_usize(name, value) {
        Ok(number) => if number > 0 {
            Ok(number)
        } else {
            Err(
                ParseDetectionOptionOverrideError::InvalidValue {
                    name: name.to_owned(),
                    value: value.to_owned(),
                    expected: "positive integer",
                },
            )
        },
        Err(error) => Err(error),
    }
}

/// What a value of a fast threshold scale reads.
fn parse_scale(name: &str, value: &str) -> (scale: Result<
    FastThresholdScale,
    ParseDetectionOptionOverrideError,
>)
    ensures
        match scale {
            Ok(found) => scale_of(value@) == Some(found),
            Err(error) => scale_of(value@) is None && error@ == invalid(
                name@,
                value@,
                "legacy|sample-range"@,
            ),
        },
{
    if same_text(value, "legacy") {
        Ok(FastThresholdScale::Legacy)
    } else if same_text(value, "sample-range") || same_text(value, "sample_range") {
        Ok(FastThresholdScale::SampleRange)
    } else {
        Err(
            ParseDetectionOptionOverrideError::InvalidValue {
                name: name.to_owned(),
                value: value.to_owned(),
                expected: "legacy|sample-range",
            },
        )
    }
}

/// What a value reads that was read as a number within limits.
pub open spec fn limited_number(
    name: Seq<char>,
    value: Seq<char>,
    number: NumberReading,
    highest: Option<u64>,
    expected: Seq<char>,
) -> Result<Measure, ParseFailure> {
    match number {
        NumberReading::Malformed => Err(invalid(name, value, "finite number"@)),
        NumberReading::NotFinite => Err(invalid(name, value, "finite number"@)),
        NumberReading::Finite { value: found } => if double(ZERO).le(found) && (
        highest matches Some(limit) ==> found.le(double(limit))) {
            Ok(found)
        } else {
            Err(invalid(name, value, expected))
        },
    }
}

/// Whether an outcome is the given one.
pub open spec fn agrees<T>(
    outcome: Result<T, ParseDetectionOptionOverrideError>,
    expected: Result<T, ParseFailure>,
) -> bool {
    match (outcome, expected) {
        (Ok(found), Ok(wanted)) => found == wanted,
        (Err(error), Err(failure)) => error@ == failure,
        _ => false,
    }
}

/// What a value reads that was read as a number, if it is a finite one.
pub fn parse_f64(name: &str, value: &str, number: &NumberReading) -> (found: Result<
    Measure,
    ParseDetectionOptionOverrideError,
>)
    ensures
        agrees(
            found,
            match *number {
                NumberReading::Malformed => Err(invalid(name@, value@, "finite number"@)),
                NumberReading::NotFinite => Err(invalid(name@, value@, "finite number"@)),
                NumberReading::Finite { value: read } => Ok(read),
            },
        ),
{
    match number {
        NumberReading::Malformed | NumberReading::NotFinite => Err(
            ParseDetectionOptionOverrideError::InvalidValue {
                name: name.to_owned(),
                value: value.to_owned(),
                expected: "finite number",
            },
        ),
        NumberReading::Finite { value: found } => Ok(*found),
    }
}

/// What a value reads that was read as a number, if it is finite and not negative.
pub fn parse_nonnegative_f64(name: &str, value: &str, number: &NumberReading) -> (found: Result<
    Measure,
    ParseDetectionOptionOverrideError,
>)
    ensures
        agrees(
            found,
            limited_number(name@, value@, *number, None, "non-negative finite number"@),
        ),
{
    let found: Measure = match parse_f64(name, value, number) {
        Ok(found) => found,
        Err(error) => {
            return Err(error);
        },
    };
    if found.at_least(double(ZERO)) {
        Ok(found)
    } else {
        Err(
            ParseDetectionOptionOverrideError::InvalidValue {
                name: name.to_owned(),
                value: value.to_owned(),
                expected: "non-negative finite number",
            },
        )
    }
}

/// What a value reads that was read as a number, if it is a share that can be masked.
pub fn parse_percent(name: &str, value: &str, number: &NumberReading) -> (found: Result<
    Measure,
    ParseDetectionOptionOverrideError,
>)
    ensures
        agrees(
            found,
            limited_number(
                name@,
                value@,
                *number,
                Some(MAX_MASK_PERCENT),
                "number from 0.0 to 0.95"@,
            ),
        ),
{
    let found: Measure = match parse_f64(name, value, number) {
        Ok(found) => found,
        Err(error) => {
            return Err(error);
        },
    };
    if found.at_least(double(ZERO)) && found.at_most(double(MAX_MASK_PERCENT)) {
        Ok(found)
    } else {
        Err(
            ParseDetectionOptionOverrideError::InvalidValue {
                name: name.to_owned(),
                value: value.to_owned(),
                expected: "number from 0.0 to 0.95",
            },
        )
    }
}

/// What a value of a switch reads.
pub open spec fn read_switch(name: Seq<char>, value: Seq<char>) -> Result<bool, ParseFailure> {
    match switch_of(value) {
        Some(on) => Ok(on),
        None => Err(invalid(name, value, "true|false"@)),
    }
}

/// What a value of a count reads.
pub open spec fn read_count(name: Seq<char>, value: Seq<char>) -> Result<usize, ParseFailure> {
    match number_of(value) {
        Some(number) => Ok(number as usize),
        None => Err(invalid(name, value, "non-negative integer"@)),
    }
}

/// What a value of a count reads that must not be 0.
pub open spec fn read_positive(name: Seq<char>, value: Seq<char>) -> Result<usize, ParseFailure> {
    match number_of(value) {
        Some(number) => if number > 0 {
            Ok(number as usize)
        } else {
            Err(invalid(name, value, "positive integer"@))
        },
        None => Err(invalid(name, value, "non-negative integer"@)),
    }
}

/// What a value of a fast threshold scale reads.
pub open spec fn read_scale(name: Seq<char>, value: Seq<char>) -> Result<
    FastThresholdScale,
    ParseFailure,
> {
    match scale_of(value) {
        Some(scale) => Ok(scale),
        None => Err(invalid(name, value, "legacy|sample-range"@)),
    }
}

/// The override that a name and a value make.
pub open spec fn override_of(
    name: Seq<char>,
    value: Seq<char>,
    number: NumberReading,
) -> Result<DetectionOptionOverride, ParseFailure> {
    match key_of(name) {
        None => Err(ParseFailure::UnknownOption(name)),
        Some(key) => match key {
            OptionKey::FlashDetection => match read_switch(name, value) {
                Ok(found) => Ok(DetectionOptionOverride::FlashDetection(found)),
                Err(failure) => Err(failure),
            },
            OptionKey::Lookahead => match read_positive(name, value) {
                Ok(found) => Ok(DetectionOptionOverride::Lookahead(found)),
                Err(failure) => Err(failure),
            },
            OptionKey::FastThresholdScale => match read_scale(name, value) {
                Ok(found) => Ok(DetectionOptionOverride::FastThresholdScale(found)),
                Err(failure) => Err(failure),
            },
            OptionKey::ForwardSimilarity => match read_switch(name, value) {
                Ok(found) => Ok(DetectionOptionOverride::ForwardSimilarity(found)),
                Err(failure) => Err(failure),
            },
            OptionKey::ForwardSimilarityFrames => match read_count(name, value) {
                Ok(found) => Ok(DetectionOptionOverride::ForwardSimilarityFrames(found)),
                Err(failure) => Err(failure),
            },
            OptionKey::ForwardSimilarityMinOffset => match read_count(name, value) {
                Ok(found) => Ok(DetectionOptionOverride::ForwardSimilarityMinOffset(found)),
                Err(failure) => Err(failure),
            },
            OptionKey::ForwardSimilarityThreshold => match limited_number(
                name,
                value,
                number,
                None,
                "non-negative finite number"@,
            ) {
                Ok(found) => Ok(DetectionOptionOverride::ForwardSimilarityThreshold(found)),
                Err(failure) => Err(failure),
            },
            OptionKey::ForwardSimilarityMaskPercent => match limited_number(
                name,
                value,
                number,
                Some(MAX_MASK_PERCENT),
                "number from 0.0 to 0.95"@,
            ) {
                Ok(found) => Ok(DetectionOptionOverride::ForwardSimilarityMaskPercent(found)),
                Err(failure) => Err(failure),
            },
            OptionKey::ForwardSimilarityRequireReturnCandidate => match read_switch(name, value) {
                Ok(found) => Ok(DetectionOptionOverride::ForwardSimilarityRequireReturnCandidate(found)),
                Err(failure) => Err(failure),
            },
            OptionKey::ForwardSimilaritySuppressInside => match read_switch(name, value) {
                Ok(found) => Ok(DetectionOptionOverride::ForwardSimilaritySuppressInside(found)),
                Err(failure) => Err(failure),
            },
            OptionKey::TransientSimilarity => match read_switch(name, value) {
                Ok(found) => Ok(DetectionOptionOverride::TransientSimilarity(found)),
                Err(failure) => Err(failure),
            },
            OptionKey::TransientSimilarityFrames => match read_count(name, value) {
                Ok(found) => Ok(DetectionOptionOverride::TransientSimilarityFrames(found)),
                Err(failure) => Err(failure),
            },
            OptionKey::TransientSimilarityThreshold => match limited_number(
                name,
                value,
                number,
                None,
                "non-negative finite number"@,
            ) {
                Ok(found) => Ok(DetectionOptionOverride::TransientSimilarityThreshold(found)),
                Err(failure) => Err(failure),
            },
            OptionKey::TransientSimilarityDarkThreshold => match limited_number(
                name,
                value,
                number,
                None,
                "non-negative finite number"@,
            ) {
                Ok(found) => Ok(DetectionOptionOverride::TransientSimilarityDarkThreshold(found)),
                Err(failure) => Err(failure),
            },
            OptionKey::TransientSimilarityMaskPercent => match limited_number(
                name,
                value,
                number,
                Some(MAX_MASK_PERCENT),
                "number from 0.0 to 0.95"@,
            ) {
                Ok(found) => Ok(DetectionOptionOverride::TransientSimilarityMaskPercent(found)),
                Err(failure) => Err(failure),
            },
        },
    }
}

impl DetectionOptionOverride {
    /// The override that a name and a value make. `number` is how the value reads as a
    /// number; options that are no numbers do not look at it.
    pub fn from_name_value(name: &str, value: &str, number: &NumberReading) -> (option: Result<
        Self,
        ParseDetectionOptionOverrideError,
    >)
        ensures
            agrees(option, override_of(name@, value@, *number)),
    {
        let key: OptionKey = match option_key(name) {
            Some(key) => key,
            None => {
                return Err(ParseDetectionOptionOverrideError::UnknownOption(name.to_owned()));
            },
        };
        match key {
            OptionKey::FlashDetection => match parse_bool(name, value) {
                Ok(found) => Ok(DetectionOptionOverride::FlashDetection(found)),
                Err(error) => Err(error),
            },
            OptionKey::Lookahead => match parse_positive_usize(name, value) {
                Ok(found) => Ok(DetectionOptionOverride::Lookahead(found)),
                Err(error) => Err(error),
            },
            OptionKey::FastThresholdScale => match parse_scale(name, value) {
                Ok(found) => Ok(DetectionOptionOverride::FastThresholdScale(found)),
                Err(error) => Err(error),
            },
            OptionKey::ForwardSimilarity => match parse_bool(name, value) {
                Ok(found) => Ok(DetectionOptionOverride::ForwardSimilarity(found)),
                Err(error) => Err(error),
            },
            OptionKey::ForwardSimilarityFrames => match parse_usize(name, value) {
                Ok(found) => Ok(DetectionOptionOverride::ForwardSimilarityFrames(found)),
                Err(error) => Err(error),
            },
            OptionKey::ForwardSimilarityMinOffset => match parse_usize(name, value) {
                Ok(found) => Ok(DetectionOptionOverride::ForwardSimilarityMinOffset(found)),
                Err(error) => Err(error),
            },
            OptionKey::ForwardSimilarityThreshold => match parse_nonnegative_f64(name, value, number) {
                Ok(found) => Ok(DetectionOptionOverride::ForwardSimilarityThreshold(found)),
                Err(error) => Err(error),
            },
            OptionKey::ForwardSimilarityMaskPercent => match parse_percent(name, value, number) {
                Ok(found) => Ok(DetectionOptionOverride::ForwardSimilarityMaskPercent(found)),
                Err(error) => Err(error),
            },
            OptionKey::ForwardSimilarityRequireReturnCandidate => match parse_bool(name, value) {
                Ok(found) => Ok(DetectionOptionOverride::ForwardSimilarityRequireReturnCandidate(found)),
                Err(error) => Err(error),
            },
            OptionKey::ForwardSimilaritySuppressInside => match parse_bool(name, value) {
                Ok(found) => Ok(DetectionOptionOverride::ForwardSimilaritySuppressInside(found)),
                Err(error) => Err(error),
            },
            OptionKey::TransientSimilarity => match parse_bool(name, value) {
                Ok(found) => Ok(DetectionOptionOverride::TransientSimilarity(found)),
                Err(error) => Err(error),
            },
            OptionKey::TransientSimilarityFrames => match parse_usize(name, value) {
                Ok(found) => Ok(DetectionOptionOverride::TransientSimilarityFrames(found)),
                Err(error) => Err(error),
            },
            OptionKey::TransientSimilarityThreshold => match parse_nonnegative_f64(name, value, number) {
                Ok(found) => Ok(DetectionOptionOverride::TransientSimilarityThreshold(found)),
                Err(error) => Err(error),
            },
            OptionKey::TransientSimilarityDarkThreshold => match parse_nonnegative_f64(name, value, number) {
                Ok(found) => Ok(DetectionOptionOverride::TransientSimilarityDarkThreshold(found)),
                Err(error) => Err(error),
            },
            OptionKey::TransientSimilarityMaskPercent => match parse_percent(name, value, number) {
                Ok(found) => Ok(DetectionOptionOverride::TransientSimilarityMaskPercent(found)),
                Err(error) => Err(error),
            },
        }
    }
}

/// Whether a character is white space.
pub open spec fn is_white(c: char) -> bool {
    ||| '\u{9}' <= c && c <= '\u{D}'
    ||| c == ' '
    ||| c == '\u{85}'
    ||| c == '\u{A0}'
    ||| c == '\u{1680}'
    ||| '\u{2000}' <= c && c <= '\u{200A}'
    ||| c == '\u{2028}'
    ||| c == '\u{2029}'
    ||| c == '\u{202F}'
    ||| c == '\u{205F}'
    ||| c == '\u{3000}'
}

/// Whether a character is white space.
fn white(c: char) -> (is: bool)
    ensures
        is == is_white(c),
{
    ('\u{9}' <= c && c <= '\u{D}') || c == ' ' || c == '\u{85}' || c == '\u{A0}' || c == '\u{1680}'
        || ('\u{2000}' <= c && c <= '\u{200A}') || c == '\u{2028}' || c == '\u{2029}' || c
        == '\u{202F}' || c == '\u{205F}' || c == '\u{3000}'
}

/// Where the text starts that follows white space.
pub open spec fn after_white(text: Seq<char>, from: int) -> int
    decreases text.len() - from,
{
    if 0 <= from < text.len() && is_white(text[from]) {
        after_white(text, from + 1)
    } else {
        from
    }
}

/// Where the text ends that white space follows.
pub open spec fn before_white(text: Seq<char>, from: int, to: int) -> int
    decreases to - from,
{
    if 0 <= from < to <= text.len() && is_white(text[to - 1]) {
        before_white(text, from, to - 1)
    } else {
        to
    }
}

/// Where the text starts that follows pairs of dashes.
pub open spec fn after_dashes(text: Seq<char>, from: int, to: int) -> int
    decreases to - from,
{
    if 0 <= from && from + 2 <= to <= text.len() && text[from] == '-' && text[from + 1] == '-' {
        after_dashes(text, from + 2, to)
    } else {
        from
    }
}

/// The text of an option: without white space around it, and without pairs of dashes
/// before it.
pub open spec fn option_text(input: Seq<char>) -> Seq<char> {
    let start = after_white(input, 0);
    let end = before_white(input, start, input.len() as int);
    input.subrange(after_dashes(input, start, end), end)
}

/// Where an equals sign comes first, or the end.
pub open spec fn equals_sign(text: Seq<char>, from: int) -> int
    decreases text.len() - from,
{
    if 0 <= from < text.len() && text[from] != '=' {
        equals_sign(text, from + 1)
    } else {
        from
    }
}

/// Without an equals sign the whole text is passed over.
proof fn no_equals_sign(text: Seq<char>, from: int)
    requires
        0 <= from <= text.len(),
        forall|k: int| 0 <= k < text.len() ==> #[trigger] text[k] != '=',
    ensures
        equals_sign(text, from) == text.len(),
    decreases text.len() - from,
{
    if from < text.len() {
        no_equals_sign(text, from + 1);
    }
}

/// The name and value of an option. One that starts with `no-` is switched off, one
/// without a value is switched on; an option that is no switch requires a value after an
/// equals sign.
pub open spec fn name_and_value(input: Seq<char>) -> Result<(Seq<char>, Seq<char>), ParseFailure> {
    let text = option_text(input);
    let sign = equals_sign(text, 0);
    if text.len() == 0 {
        Err(ParseFailure::Empty)
    } else if text.len() >= 3 && text[0] == 'n' && text[1] == 'o' && text[2] == '-' {
        if requires_value(text.skip(3)) {
            Err(ParseFailure::MissingValue(text.skip(3)))
        } else {
            Ok((text.skip(3), "false"@))
        }
    } else if sign >= text.len() {
        if requires_value(text) {
            Err(ParseFailure::MissingValue(text))
        } else {
            Ok((text, "true"@))
        }
    } else if sign + 1 == text.len() {
        Err(ParseFailure::MissingValue(text.take(sign)))
    } else {
        Ok((text.take(sign), text.skip(sign + 1)))
    }
}

/// A name and a value.
#[derive(Debug)]
pub struct OptionParts {
    pub name: String,
    pub value: String,
}

/// Whether a name is that of an option that requires a value.
fn lacks_value(name: &str) -> (lacks: bool)
    ensures
        lacks == requires_value(name@),
{
    match option_key(name) {
        Some(OptionKey::FlashDetection)
        | Some(OptionKey::ForwardSimilarity)
        | Some(OptionKey::ForwardSimilarityRequireReturnCandidate)
        | Some(OptionKey::ForwardSimilaritySuppressInside)
        | Some(OptionKey::TransientSimilarity)
        | None => false,
        Some(_) => true,
    }
}

/// Takes an option apart into its name and value. One that requires a value and has none
/// is reported by its name.
pub fn split_option(input: &str) -> (parts: Result<OptionParts, ParseDetectionOptionOverrideError>)
    ensures
        match name_and_value(input@) {
            Ok((name, value)) => parts matches Ok(found) && found.name@ == name && found.value@
                == value,
            Err(failure) => parts matches Err(error) && error@ == failure,
        },
{
    let length: usize = input.unicode_len();
    let mut start: usize = 0;
    while start < length && white(input.get_char(start))
        invariant
            start <= length,
            length == input@.len(),
            after_white(input@, 0) == after_white(input@, start as int),
        ensures
            start <= length,
            start == after_white(input@, 0),
        decreases length - start,
    {
        start = start + 1;
    }
    let mut end: usize = length;
    while end > start && white(input.get_char(end - 1))
        invariant
            start <= end <= length,
            length == input@.len(),
            before_white(input@, start as int, length as int) == before_white(
                input@,
                start as int,
                end as int,
            ),
        ensures
            start <= end <= length,
            end == before_white(input@, start as int, length as int),
        decreases end - start,
    {
        end = end - 1;
    }
    let ghost trimmed = start as int;
    while end - start >= 2 && input.get_char(start) == '-' && input.get_char(start + 1) == '-'
        invariant
            trimmed <= start <= end <= length,
            length == input@.len(),
            after_dashes(input@, trimmed, end as int) == after_dashes(
                input@,
                start as int,
                end as int,
            ),
        ensures
            trimmed <= start <= end <= length,
            start == after_dashes(input@, trimmed, end as int),
        decreases end - start,
    {
        start = start + 2;
    }
    let text: &str = input.substring_char(start, end);
    assert(text@ == option_text(input@));
    let count: usize = text.unicode_len();
    if count == 0 {
        return Err(ParseDetectionOptionOverrideError::Empty);
    }
    if count >= 3 && text.get_char(0) == 'n' && text.get_char(1) == 'o' && text.get_char(2)
        == '-' {
        let name: &str = text.substring_char(3, count);
        assert(name@ =~= text@.skip(3));
        if lacks_value(name) {
            return Err(ParseDetectionOptionOverrideError::MissingValue(name.to_owned()));
        }
        return Ok(OptionParts { name: name.to_owned(), value: "false".to_owned() });
    }
    let mut sign: usize = 0;
    while sign < count && text.get_char(sign) != '='
        invariant
            sign <= count,
            count == text@.len(),
            equals_sign(text@, 0) == equals_sign(text@, sign as int),
        ensures
            sign <= count,
            sign == equals_sign(text@, 0),
        decreases count - sign,
    {
        sign = sign + 1;
    }
    if sign == count {
        if lacks_value(text) {
            return Err(ParseDetectionOptionOverrideError::MissingValue(text.to_owned()));
        }
        return Ok(OptionParts { name: text.to_owned(), value: "true".to_owned() });
    }
    let name: &str = text.substring_char(0, sign);
    assert(name@ =~= text@.take(sign as int));
    if sign + 1 == count {
        return Err(ParseDetectionOptionOverrideError::MissingValue(name.to_owned()));
    }
    let value: &str = text.substring_char(sign + 1, count);
    assert(value@ =~= text@.skip(sign + 1));
    Ok(OptionParts { name: name.to_owned(), value: value.to_owned() })
}

/// The override that a text makes. `number` is how its value reads as a number.
pub open spec fn option_of(input: Seq<char>, number: NumberReading) -> Result<
    DetectionOptionOverride,
    ParseFailure,
> {
    match name_and_value(input) {
        Ok((name, value)) => override_of(name, value, number),
        Err(failure) => Err(failure),
    }
}

impl DetectionOptionOverride {
    /// The override that a text makes. `number` is how its value, as [`split_option`] gives
    /// it, reads as a number; options that are no numbers do not look at it.
    pub fn from_str(input: &str, number: &NumberReading) -> (option: Result<
        Self,
        ParseDetectionOptionOverrideError,
    >)
        ensures
            agrees(option, option_of(input@, *number)),
    {
        match split_option(input) {
            Ok(parts) => DetectionOptionOverride::from_name_value(
                parts.name.as_str(),
                parts.value.as_str(),
                number,
            ),
            Err(error) => Err(error),
        }
    }
}

/// An option that requires a value is never read without one: its bare name, also behind
/// `no-`, is reported as missing a value.
pub proof fn bare_name_lacks_value(input: Seq<char>, key: OptionKey, number: NumberReading)
    requires
        !is_switch(key),
        option_text(input) == name_of(key) || option_text(input) == "no-"@ + name_of(key),
    ensures
        option_of(input, number) == Err::<DetectionOptionOverride, ParseFailure>(
            ParseFailure::MissingValue(name_of(key)),
        ),
{
    let name = name_of(key);
    let found = choose|other: OptionKey| name_of(other) == name;
    assert(name_of(found) == name);
    names_are_distinct(found, key);
    assert(requires_value(name));
    name_is_plain(key);
    let text = option_text(input);
    reveal_strlit("no-");
    if text == name {
        no_equals_sign(text, 0);
    } else {
        assert(text.skip(3) =~= name);
        assert(text[0] == 'n' && text[1] == 'o' && text[2] == '-');
    }
}

/// A bare switch is switched on, and one behind `no-` is switched off, as with the value
/// `true` or `false`.
pub proof fn bare_switch_is_set(input: Seq<char>, key: OptionKey, number: NumberReading)
    requires
        is_switch(key),
    ensures
        option_text(input) == name_of(key) ==> option_of(input, number) == override_of(
            name_of(key),
            "true"@,
            number,
        ),
        option_text(input) == "no-"@ + name_of(key) ==> option_of(input, number) == override_of(
            name_of(key),
            "false"@,
            number,
        ),
{
    let name = name_of(key);
    let found = choose|other: OptionKey| name_of(other) == name;
    assert(name_of(found) == name);
    names_are_distinct(found, key);
    assert(!requires_value(name));
    name_is_plain(key);
    let text = option_text(input);
    reveal_strlit("no-");
    if text == name {
        no_equals_sign(text, 0);
    }
    if text == "no-"@ + name {
        assert(text.skip(3) =~= name);
        assert(text[0] == 'n' && text[1] == 'o' && text[2] == '-');
    }
}

/// A name is accepted exactly where it is one of the listed ones: every other is
/// reported as unknown, whatever its value is.
pub proof fn exactly_the_listed_names_are_known(
    name: Seq<char>,
    value: Seq<char>,
    number: NumberReading,
)
    ensures
        (override_of(name, value, number) == Err::<DetectionOptionOverride, ParseFailure>(
            ParseFailure::UnknownOption(name),
        )) == !(exists|key: OptionKey| #[trigger] name_of(key) == name),
{
}

} // verus!
