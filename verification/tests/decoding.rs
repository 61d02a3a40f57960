use lidar::decode::{response, Decoded};
use lidar::telegram::{
    DeviceState, Response, RunResult, SetAccessModeResult, StartMeasurementResult,
    StopMeasurementResult,
};

const SCAN: &[u8] = b"\x02sRA LMDscandata 1 1 89A27F 0 0 343 347 27477BA9 2747813B 0 0 7 0 0 1388 168 0 1 DIST1 3F800000 00000000 186A0 1388 3 a 14 1e 0 0 0\x03";

fn matched(response_value: Response, telegram: &[u8]) -> Decoded {
    Decoded::Matched(response_value, telegram.len())
}

#[test]
fn device_state_ready() {
    let telegram = b"\x02sRA SCdevicestate 1\x03";
    assert_eq!(response(telegram), matched(Response::DeviceState(DeviceState::Ready), telegram));
}

#[test]
fn device_state_digits() {
    assert_eq!(
        response(b"\x02sRA SCdevicestate 0\x03"),
        Decoded::Matched(Response::DeviceState(DeviceState::Busy), 21)
    );
    assert_eq!(
        response(b"\x02sRA SCdevicestate 2\x03"),
        Decoded::Matched(Response::DeviceState(DeviceState::Error), 21)
    );
}

#[test]
fn access_mode_digits() {
    assert_eq!(
        response(b"\x02sAN SetAccessMode 0\x03"),
        Decoded::Matched(Response::SetAccessMode(SetAccessModeResult::Error), 21)
    );
    assert_eq!(
        response(b"\x02sAN SetAccessMode 1\x03"),
        Decoded::Matched(Response::SetAccessMode(SetAccessModeResult::Success), 21)
    );
}

#[test]
fn start_measurement_digits() {
    assert_eq!(
        response(b"\x02sAN LMCstartmeas 0\x03"),
        Decoded::Matched(Response::StartMeasurement(StartMeasurementResult::Success), 20)
    );
    assert_eq!(
        response(b"\x02sAN LMCstartmeas 1\x03"),
        Decoded::Matched(Response::StartMeasurement(StartMeasurementResult::NotAllowed), 20)
    );
}

#[test]
fn stop_measurement_digits() {
    assert_eq!(
        response(b"\x02sAN LMCstopmeas 0\x03"),
        Decoded::Matched(Response::StopMeasurement(StopMeasurementResult::Success), 19)
    );
    assert_eq!(
        response(b"\x02sAN LMCstopmeas 1\x03"),
        Decoded::Matched(Response::StopMeasurement(StopMeasurementResult::NotAllowed), 19)
    );
}

#[test]
fn application_activation_acknowledgement() {
    let telegram = b"\x02sWA SetActiveApplications\x03";
    assert_eq!(response(telegram), matched(Response::SetActiveApplications, telegram));
}

#[test]
fn run_digits() {
    assert_eq!(
        response(b"\x02sAN Run 0\x03"),
        Decoded::Matched(Response::Run(RunResult::Error), 11)
    );
    assert_eq!(
        response(b"\x02sAN Run 1\x03"),
        Decoded::Matched(Response::Run(RunResult::Success), 11)
    );
}

#[test]
fn scan_data_with_three_samples() {
    assert_eq!(response(SCAN), matched(Response::ScanData { values: vec![10, 20, 30] }, SCAN));
}

#[test]
fn scan_data_without_samples() {
    let telegram = b"\x02sRA LMDscandata a b c d e f g h i j k l m n o p q 1 r s t u v 0 rest\x03";
    assert_eq!(response(telegram), matched(Response::ScanData { values: vec![] }, telegram));
}

#[test]
fn scan_data_takes_tabs_and_runs_of_blanks() {
    let telegram =
        b"\x02sRA LMDscandata a\tb  c d e f g h i j k l m n o p q \t 1 r s t u v   2\t\tff  100 \t x\x03";
    assert_eq!(response(telegram), matched(Response::ScanData { values: vec![255, 256] }, telegram));
}

#[test]
fn scan_data_ignores_what_follows_the_samples() {
    let telegram =
        b"\x02sRA LMDscandata a b c d e f g h i j k l m n o p q 1 r s t u v 1 7 anything \x02 at all\x03";
    assert_eq!(response(telegram), matched(Response::ScanData { values: vec![7] }, telegram));
}

#[test]
fn scan_data_needs_a_byte_before_the_end() {
    let telegram = b"\x02sRA LMDscandata a b c d e f g h i j k l m n o p q 1 r s t u v 1 7 \x03";
    assert_eq!(response(telegram), Decoded::NoMatch);
}

#[test]
fn scan_data_marker_is_a_literal_one_and_one_space() {
    let other_digit = b"\x02sRA LMDscandata a b c d e f g h i j k l m n o p q 2 r s t u v 1 7 x\x03";
    assert_eq!(response(other_digit), Decoded::NoMatch);
    let two_spaces = b"\x02sRA LMDscandata a b c d e f g h i j k l m n o p q 1  r s t u v 1 7 x\x03";
    assert_eq!(response(two_spaces), Decoded::NoMatch);
}

#[test]
fn scan_data_with_too_few_samples_waits() {
    let telegram = b"\x02sRA LMDscandata a b c d e f g h i j k l m n o p q 1 r s t u v 3 a 14 ";
    assert_eq!(response(telegram), Decoded::Incomplete);
}

#[test]
fn scan_data_with_a_sample_that_is_no_number() {
    let telegram = b"\x02sRA LMDscandata a b c d e f g h i j k l m n o p q 1 r s t u v 2 a xyz 0\x03";
    assert_eq!(response(telegram), Decoded::NoMatch);
    let glued = b"\x02sRA LMDscandata a b c d e f g h i j k l m n o p q 1 r s t u v 2 a 1g 0\x03";
    assert_eq!(response(glued), Decoded::NoMatch);
}

#[test]
fn scan_data_with_a_sample_that_does_not_fit() {
    let mut telegram =
        b"\x02sRA LMDscandata a b c d e f g h i j k l m n o p q 1 r s t u v 1 ".to_vec();
    telegram.extend_from_slice(format!("{:x}f", usize::MAX).as_bytes());
    telegram.extend_from_slice(b" 0\x03");
    assert_eq!(response(&telegram), Decoded::NoMatch);
}

#[test]
fn literal_text_in_any_case() {
    assert_eq!(
        response(b"\x02SRA SCDEVICESTATE 1\x03"),
        Decoded::Matched(Response::DeviceState(DeviceState::Ready), 21)
    );
    assert_eq!(
        response(b"\x02sra scdevicestate 1\x03"),
        Decoded::Matched(Response::DeviceState(DeviceState::Ready), 21)
    );
    assert_eq!(
        response(b"\x02swa setactiveapplications\x03"),
        Decoded::Matched(Response::SetActiveApplications, 27)
    );
    let upper = SCAN.to_ascii_uppercase();
    let lower = SCAN.to_ascii_lowercase();
    assert_eq!(response(&upper), response(SCAN));
    assert_eq!(response(&lower), response(SCAN));
}

#[test]
fn every_case_variant_of_a_tag_decodes_alike() {
    let telegram = b"\x02sAN Run 1\x03";
    let letters: Vec<usize> =
        (0..telegram.len()).filter(|i| telegram[*i].is_ascii_alphabetic()).collect();
    for mask in 0..(1u32 << letters.len()) {
        let mut variant = telegram.to_vec();
        for (bit, index) in letters.iter().enumerate() {
            if mask & (1 << bit) != 0 {
                variant[*index] ^= 0x20;
            }
        }
        assert_eq!(response(&variant), Decoded::Matched(Response::Run(RunResult::Success), 11));
    }
}

#[test]
fn every_proper_prefix_is_incomplete() {
    let telegrams: [&[u8]; 8] = [
        b"\x02sRA SCdevicestate 1\x03",
        b"\x02sAN SetAccessMode 1\x03",
        b"\x02sAN LMCstartmeas 0\x03",
        b"\x02sAN LMCstopmeas 0\x03",
        b"\x02sWA SetActiveApplications\x03",
        b"\x02sAN Run 1\x03",
        SCAN,
        b"\x02sRA LMDscandata a\tb  c d e f g h i j k l m n o p q \t 1 r s t u v   2\t\tff  100 \t x\x03",
    ];
    for telegram in telegrams {
        let whole = response(telegram);
        assert!(matches!(whole, Decoded::Matched(_, consumed) if consumed == telegram.len()));
        for cut in 0..telegram.len() {
            assert_eq!(response(&telegram[..cut]), Decoded::Incomplete);
        }
    }
}

#[test]
fn empty_buffer_is_incomplete() {
    assert_eq!(response(b""), Decoded::Incomplete);
}

#[test]
fn bytes_behind_a_telegram_are_left_alone() {
    let first = b"\x02sAN SetAccessMode 1\x03";
    let second = b"\x02sAN LMCstartmeas 0\x03";
    for kept in 0..=second.len() {
        let mut buffer = first.to_vec();
        buffer.extend_from_slice(&second[..kept]);
        assert_eq!(
            response(&buffer),
            Decoded::Matched(Response::SetAccessMode(SetAccessModeResult::Success), first.len())
        );
    }
    let mut buffer = SCAN.to_vec();
    buffer.extend_from_slice(b"  \x03\x03 trailing");
    assert_eq!(
        response(&buffer),
        Decoded::Matched(Response::ScanData { values: vec![10, 20, 30] }, SCAN.len())
    );
}

#[test]
fn bytes_that_begin_no_telegram() {
    assert_eq!(response(b"hello"), Decoded::NoMatch);
    assert_eq!(response(b"\x03"), Decoded::NoMatch);
    assert_eq!(response(b"\x02sXX"), Decoded::NoMatch);
    assert_eq!(response(b"\x02sRA SCdevicestate x\x03"), Decoded::NoMatch);
    assert_eq!(response(b"\x02sRA SCdevicestate 11\x03"), Decoded::NoMatch);
    assert_eq!(response(b"\x02sRA SCdevicestate 1 \x03"), Decoded::NoMatch);
    assert_eq!(response(b"\x02sRA SCdevicestate  1\x03"), Decoded::NoMatch);
    assert_eq!(response(b"\x02sWA SetActiveApplications 1\x03"), Decoded::NoMatch);
}

#[test]
fn status_digit_without_a_meaning() {
    assert_eq!(response(b"\x02sRA SCdevicestate 3"), Decoded::Incomplete);
    assert_eq!(response(b"\x02sRA SCdevicestate 3\x03"), Decoded::NoMatch);
    assert_eq!(response(b"\x02sAN SetAccessMode 2\x03"), Decoded::NoMatch);
    assert_eq!(response(b"\x02sAN LMCstartmeas 9\x03"), Decoded::NoMatch);
    assert_eq!(response(b"\x02sAN LMCstopmeas 2\x03"), Decoded::NoMatch);
    assert_eq!(response(b"\x02sAN Run 2\x03"), Decoded::NoMatch);
}
