//! Options: reading them from text, and applying them.

use av_scenechange::measure::Measure;
use av_scenechange::option_text::{
    detection_option_override_names, parse_positive_usize, split_option, NumberReading,
    ParseDetectionOptionOverrideError,
};
use av_scenechange::options::{DetectionOptions, FastThresholdScale};
use av_scenechange::overrides::DetectionOptionOverride;

fn num(value: f64) -> Measure {
    Measure { bits: value.to_bits() }
}

fn reading(value: &str) -> NumberReading {
    match value.parse::<f64>() {
        Err(_) => NumberReading::Malformed,
        Ok(number) if number.is_finite() => {
            NumberReading::Finite { value: num(number) }
        }
        Ok(_) => NumberReading::NotFinite,
    }
}

fn parse(
    input: &str,
) -> Result<DetectionOptionOverride, ParseDetectionOptionOverrideError> {
    let parts = split_option(input)?;
    DetectionOptionOverride::from_str(input, &reading(&parts.value))
}

fn parsed(input: &str) -> DetectionOptionOverride {
    match parse(input) {
        Ok(option) => option,
        Err(error) => panic!("{}", error.message()),
    }
}

fn refused(input: &str) -> String {
    match parse(input) {
        Ok(_) => panic!("{input} was read"),
        Err(error) => error.message(),
    }
}

#[test]
fn parses_controlled_options() {
    assert_eq!(
        parsed("no-forward-similarity"),
        DetectionOptionOverride::ForwardSimilarity(false)
    );
    assert_eq!(
        parsed("--transient-similarity=false"),
        DetectionOptionOverride::TransientSimilarity(false)
    );
    assert_eq!(
        parsed("forward-similarity-frames=40"),
        DetectionOptionOverride::ForwardSimilarityFrames(40)
    );
    assert_eq!(
        parsed("fast-threshold-scale=sample-range"),
        DetectionOptionOverride::FastThresholdScale(FastThresholdScale::SampleRange)
    );
}

#[test]
fn every_listed_name_is_read() {
    for name in detection_option_override_names() {
        let value = match name {
            "fast-threshold-scale" => "legacy",
            "flash-detection"
            | "forward-similarity"
            | "forward-similarity-require-return-candidate"
            | "forward-similarity-suppress-inside"
            | "transient-similarity" => "true",
            "forward-similarity-mask-percent" | "transient-similarity-mask-percent" => "0.5",
            _ => "7",
        };
        parsed(&format!("{name}={value}"));
        assert!(matches!(
            parse(&format!("{name}={value} and more")),
            Err(ParseDetectionOptionOverrideError::InvalidValue { .. })
        ));
    }
}

#[test]
fn numbers_are_read_within_their_limits() {
    assert_eq!(
        parsed("forward-similarity-threshold=6.25"),
        DetectionOptionOverride::ForwardSimilarityThreshold(num(6.25))
    );
    assert_eq!(
        parsed("transient-similarity-mask-percent=0.95"),
        DetectionOptionOverride::TransientSimilarityMaskPercent(num(0.95))
    );
    assert_eq!(
        refused("transient-similarity-mask-percent=0.96"),
        "invalid value '0.96' for av-scenechange option \
         'transient-similarity-mask-percent' (expected number from 0.0 to 0.95)"
    );
    assert_eq!(
        refused("forward-similarity-threshold=-1.50"),
        "invalid value '-1.50' for av-scenechange option \
         'forward-similarity-threshold' (expected non-negative finite number)"
    );
    assert_eq!(
        refused("forward-similarity-threshold=+Infinity"),
        "invalid value '+Infinity' for av-scenechange option \
         'forward-similarity-threshold' (expected finite number)"
    );
    assert_eq!(
        refused("forward-similarity-threshold=six"),
        "invalid value 'six' for av-scenechange option \
         'forward-similarity-threshold' (expected finite number)"
    );
    assert_eq!(
        refused("lookahead=00"),
        "invalid value '00' for av-scenechange option 'lookahead' (expected positive integer)"
    );
    assert_eq!(
        refused("lookahead=99999999999999999999999"),
        "invalid value '99999999999999999999999' for av-scenechange option 'lookahead' \
         (expected non-negative integer)"
    );
}

#[test]
fn broken_options_are_named() {
    assert_eq!(refused(""), "empty av-scenechange option");
    assert_eq!(refused("colour=blue"), "unknown av-scenechange option 'colour'");
    assert_eq!(refused("lookahead="), "av-scenechange option 'lookahead' requires a value");
    assert_eq!(
        refused("flash-detection=maybe"),
        "invalid value 'maybe' for av-scenechange option 'flash-detection' \
         (expected true|false)"
    );
}

#[test]
fn options_that_need_a_value_do_not_go_without() {
    for name in ["lookahead", "no-lookahead", "--lookahead", " lookahead "] {
        match parse(name) {
            Err(ParseDetectionOptionOverrideError::MissingValue(missing)) => {
                assert_eq!(missing, "lookahead");
            }
            _ => panic!("{name} has no value"),
        }
    }
    for name in detection_option_override_names() {
        let bare = parse(name);
        let negated = parse(&format!("no-{name}"));
        match name {
            "flash-detection"
            | "forward-similarity"
            | "forward-similarity-require-return-candidate"
            | "forward-similarity-suppress-inside"
            | "transient-similarity" => {
                assert_eq!(bare.ok(), Some(parsed(&format!("{name}=true"))));
                assert_eq!(negated.ok(), Some(parsed(&format!("{name}=false"))));
            }
            _ => {
                for outcome in [bare, negated] {
                    assert!(matches!(
                        outcome,
                        Err(ParseDetectionOptionOverrideError::MissingValue(missing))
                            if missing == name
                    ));
                }
            }
        }
    }
    // Only the text before an equals sign is a name.
    assert_eq!(
        refused("no-lookahead=5"),
        "unknown av-scenechange option 'lookahead=5'"
    );
    assert_eq!(refused("no-colour"), "unknown av-scenechange option 'colour'");
}

#[test]
fn rejected_counts_are_reported_as_written() {
    match parse_positive_usize("lookahead", "00") {
        Err(ParseDetectionOptionOverrideError::InvalidValue { name, value, expected }) => {
            assert_eq!(name, "lookahead");
            assert_eq!(value, "00");
            assert_eq!(expected, "positive integer");
        }
        _ => panic!("zero is not positive"),
    }
    assert!(matches!(parse_positive_usize("lookahead", "007"), Ok(7)));
}

#[test]
fn overrides_change_their_own_field() {
    let mut options = DetectionOptions::high_quality();
    options.apply_overrides(&[
        DetectionOptionOverride::Lookahead(9),
        DetectionOptionOverride::ForwardSimilarityThreshold(num(4.5)),
        DetectionOptionOverride::FlashDetection(false),
    ]);
    assert_eq!(options.lookahead_distance, 9);
    assert_eq!(options.tuning.forward_similarity.threshold_8bit, num(4.5));
    assert!(!options.detect_flashes);
    let mut expected = DetectionOptions::high_quality();
    expected.lookahead_distance = 9;
    expected.tuning.forward_similarity.threshold_8bit = num(4.5);
    expected.detect_flashes = false;
    assert_eq!(options.tuning, expected.tuning);
}

#[test]
fn later_overrides_win_and_different_ones_commute() {
    let mut options = DetectionOptions::default();
    options.apply_override(DetectionOptionOverride::TransientSimilarityFrames(3));
    options.apply_override(DetectionOptionOverride::TransientSimilarityFrames(8));
    assert_eq!(options.tuning.transient_similarity.frames, 8);
    let mut swapped = DetectionOptions::default();
    swapped.apply_override(DetectionOptionOverride::Lookahead(12));
    swapped.apply_override(DetectionOptionOverride::TransientSimilarityFrames(8));
    options.apply_override(DetectionOptionOverride::Lookahead(12));
    assert_eq!(options.tuning, swapped.tuning);
    assert_eq!(options.lookahead_distance, swapped.lookahead_distance);
}

#[test]
fn lookahead_covers_the_enabled_rules() {
    let mut options = DetectionOptions::default();
    assert_eq!(options.effective_lookahead_distance(), 5);
    options.detect_flashes = false;
    assert_eq!(options.effective_lookahead_distance(), 1);
    options.tuning.transient_similarity.enabled = true;
    options.tuning.transient_similarity.frames = 11;
    assert_eq!(options.effective_lookahead_distance(), 11);
    options.tuning.forward_similarity.enabled = true;
    options.tuning.forward_similarity.frames = 80;
    options.tuning.forward_similarity.window_frames = 3;
    assert_eq!(options.effective_lookahead_distance(), 82);
    options.tuning.forward_similarity.frames = usize::MAX;
    assert_eq!(options.effective_lookahead_distance(), usize::MAX);
}
