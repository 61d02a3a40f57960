//! The decoder agrees with the same grammar written with `nom`'s streaming
//! combinators, on telegrams, on every prefix of them and on damaged copies.

use std::str::from_utf8;

use lidar::decode::{response, Decoded};
use lidar::encode::encode_scan_data;
use lidar::telegram::{
    DeviceState, Response, RunResult, SetAccessModeResult, StartMeasurementResult,
    StopMeasurementResult,
};
use nom::branch::alt;
use nom::bytes::streaming::{tag_no_case, take_till1, take_while1, take_while_m_n};
use nom::character::complete::space1;
use nom::character::streaming::hex_digit1;
use nom::character::{is_digit, is_space};
use nom::combinator::{map_opt, map_res};
use nom::multi::{count, length_count};
use nom::sequence::{terminated, tuple};
use nom::IResult;

fn hexadecimal(digits: &[u8]) -> Result<usize, std::num::ParseIntError> {
    usize::from_str_radix(from_utf8(digits).unwrap(), 16)
}

fn combinators(input: &[u8]) -> IResult<&[u8], Response> {
    alt((
        map_opt(
            tuple((
                tag_no_case("\x02sRA SCdevicestate "),
                take_while_m_n(1, 1, is_digit),
                tag_no_case("\x03"),
            )),
            |(_, state, _): (&[u8], &[u8], &[u8])| match state[0] {
                b'0' => Some(Response::DeviceState(DeviceState::Busy)),
                b'1' => Some(Response::DeviceState(DeviceState::Ready)),
                b'2' => Some(Response::DeviceState(DeviceState::Error)),
                _ => None,
            },
        ),
        map_opt(
            tuple((
                tag_no_case("\x02sAN SetAccessMode "),
                take_while_m_n(1, 1, is_digit),
                tag_no_case("\x03"),
            )),
            |(_, state, _): (&[u8], &[u8], &[u8])| match state[0] {
                b'0' => Some(Response::SetAccessMode(SetAccessModeResult::Error)),
                b'1' => Some(Response::SetAccessMode(SetAccessModeResult::Success)),
                _ => None,
            },
        ),
        map_opt(
            tuple((
                tag_no_case("\x02sAN LMCstartmeas "),
                take_while_m_n(1, 1, is_digit),
                tag_no_case("\x03"),
            )),
            |(_, state, _): (&[u8], &[u8], &[u8])| match state[0] {
                b'0' => Some(Response::StartMeasurement(StartMeasurementResult::Success)),
                b'1' => Some(Response::StartMeasurement(StartMeasurementResult::NotAllowed)),
                _ => None,
            },
        ),
        map_opt(
            tuple((
                tag_no_case("\x02sAN LMCstopmeas "),
                take_while_m_n(1, 1, is_digit),
                tag_no_case("\x03"),
            )),
            |(_, state, _): (&[u8], &[u8], &[u8])| match state[0] {
                b'0' => Some(Response::StopMeasurement(StopMeasurementResult::Success)),
                b'1' => Some(Response::StopMeasurement(StopMeasurementResult::NotAllowed)),
                _ => None,
            },
        ),
        nom::combinator::map(tag_no_case("\x02sWA SetActiveApplications\x03"), |_| {
            Response::SetActiveApplications
        }),
        map_opt(
            tuple((
                tag_no_case("\x02sAN Run "),
                take_while_m_n(1, 1, is_digit),
                tag_no_case("\x03"),
            )),
            |(_, state, _): (&[u8], &[u8], &[u8])| match state[0] {
                b'0' => Some(Response::Run(RunResult::Error)),
                b'1' => Some(Response::Run(RunResult::Success)),
                _ => None,
            },
        ),
        nom::combinator::map(
            tuple((
                tag_no_case("\x02sRA LMDscandata "),
                count(tuple((take_till1(is_space), space1)), 17),
                tag_no_case("1 "),
                count(tuple((take_till1(is_space), space1)), 5),
                length_count(
                    map_res(terminated(hex_digit1, space1), hexadecimal),
                    map_res(terminated(hex_digit1, space1), hexadecimal),
                ),
                take_while1(|character| character != 0x03),
                tag_no_case("\x03"),
            )),
            |(_, _, _, _, values, _, _)| Response::ScanData { values },
        ),
    ))(input)
}

fn by_combinators(input: &[u8]) -> Decoded {
    match combinators(input) {
        Ok((remaining, decoded)) => Decoded::Matched(decoded, input.len() - remaining.len()),
        Err(nom::Err::Incomplete(_)) => Decoded::Incomplete,
        Err(_) => Decoded::NoMatch,
    }
}

fn telegrams() -> Vec<Vec<u8>> {
    let mut all: Vec<Vec<u8>> = vec![
        b"\x02sRA SCdevicestate 0\x03".to_vec(),
        b"\x02sRA SCdevicestate 1\x03".to_vec(),
        b"\x02sRA SCdevicestate 2\x03".to_vec(),
        b"\x02sRA SCdevicestate 7\x03".to_vec(),
        b"\x02sAN SetAccessMode 0\x03".to_vec(),
        b"\x02sAN SetAccessMode 1\x03".to_vec(),
        b"\x02sAN LMCstartmeas 0\x03".to_vec(),
        b"\x02sAN LMCstartmeas 1\x03".to_vec(),
        b"\x02sAN LMCstopmeas 0\x03".to_vec(),
        b"\x02sAN LMCstopmeas 1\x03".to_vec(),
        b"\x02sWA SetActiveApplications\x03".to_vec(),
        b"\x02sAN Run 0\x03".to_vec(),
        b"\x02sAN Run 1\x03".to_vec(),
        b"\x02sRA LMDscandata 1 1 89A27F 0 0 343 347 27477BA9 2747813B 0 0 7 0 0 1388 168 0 1 DIST1 3F800000 00000000 186A0 1388 3 a 14 1e 0 0 0\x03".to_vec(),
        b"\x02sRA LMDscandata a\tb  c d e f g h i j k l m n o p q \t 1 r s t u v   2\t\tff  100 \t x\x03".to_vec(),
        b"\x02sRA LMDscandata a b c d\x03e f g h i j k l m n o p q 1 r s t u v 1 7 x\x03".to_vec(),
        b"\x02sRA LMDscandata a b c d e f g h i j k l m n o p q 1 r s t u v 1 7 \x03".to_vec(),
        b"\x02sRA LMDscandata a b c d e f g h i j k l m n o p q 1 r s t u v 1 fffffffffffffffffffff 0\x03".to_vec(),
        b"\x02sRA LMDscandata a b c d e f g h i j k l m n o p q 1 r s t u v 3 1 2 \x03".to_vec(),
        b"hello".to_vec(),
        b"\x03".to_vec(),
    ];
    all.push(encode_scan_data(&[]));
    all.push(encode_scan_data(&[0, 1, 0xabcdef, usize::MAX]));
    all
}

#[test]
fn agrees_with_combinators_on_telegrams() {
    for telegram in telegrams() {
        assert_eq!(response(&telegram), by_combinators(&telegram));
    }
}

#[test]
fn agrees_with_combinators_on_every_prefix() {
    for telegram in telegrams() {
        for cut in 0..=telegram.len() {
            assert_eq!(response(&telegram[..cut]), by_combinators(&telegram[..cut]));
        }
    }
}

#[test]
fn agrees_with_combinators_with_bytes_behind() {
    for telegram in telegrams() {
        for behind in telegrams() {
            let mut buffer = telegram.clone();
            buffer.extend_from_slice(&behind);
            assert_eq!(response(&buffer), by_combinators(&buffer));
        }
    }
}

#[test]
fn agrees_with_combinators_on_damaged_telegrams() {
    let substitutes: [u8; 12] =
        [0x02, 0x03, b' ', b'\t', b'0', b'1', b'9', b'a', b'F', b'g', b'S', 0xff];
    for telegram in telegrams() {
        for index in 0..telegram.len() {
            for substitute in substitutes {
                let mut damaged = telegram.clone();
                damaged[index] = substitute;
                assert_eq!(response(&damaged), by_combinators(&damaged));
            }
            let mut shorter = telegram.clone();
            shorter.remove(index);
            assert_eq!(response(&shorter), by_combinators(&shorter));
        }
    }
}

#[test]
fn agrees_with_combinators_on_generated_bytes() {
    let alphabet: &[u8] = b"\x02\x03 \t01aF sRA LMDscandata";
    let mut state: u64 = 0x2545_f491_4f6c_dd1d;
    for _ in 0..20000 {
        let mut buffer = b"\x02sRA LMDscandata ".to_vec();
        state ^= state << 13;
        state ^= state >> 7;
        state ^= state << 17;
        let length = (state % 90) as usize;
        for _ in 0..length {
            state ^= state << 13;
            state ^= state >> 7;
            state ^= state << 17;
            buffer.push(alphabet[(state % alphabet.len() as u64) as usize]);
        }
        assert_eq!(response(&buffer), by_combinators(&buffer));
    }
}
