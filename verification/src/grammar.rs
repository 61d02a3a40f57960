//! The grammar of inbound telegrams, stated on byte sequences.
//!
//! Every telegram starts with `<STX>` and ends with `<ETX>`; nothing else
//! frames it, so the grammar itself finds where a telegram ends. It is read
//! the way a stream is read: a buffer that stops short of a decision is
//! `Incomplete`, never an error. Literal text is compared without regard to
//! letter case.
//!
//! Scan data telegrams exist in two dialects that differ in the field after
//! the first seventeen: a literal `1`, or any one digit. This grammar takes
//! the literal `1` followed by exactly one space. Whether the device ever
//! sends another digit there is an open question that only device traffic
//! can answer.

use crate::ascii::{is_digit, is_space, lowercase, run_end, ByteClass, END};
use crate::hex::hex_value;
use crate::telegram::{
    DeviceState, ResponseView, RunResult, SetAccessModeResult, StartMeasurementResult,
    StopMeasurementResult,
};
use vstd::prelude::*;

verus! {

/// `<STX>sRA SCdevicestate `: opens the answer to a device state query.
pub const DEVICE_STATE_TAG: [u8; 19] = [
    0x02, 's' as u8, 'R' as u8, 'A' as u8, 0x20, 'S' as u8, 'C' as u8, 'd' as u8, 'e' as u8,
    'v' as u8, 'i' as u8, 'c' as u8, 'e' as u8, 's' as u8, 't' as u8, 'a' as u8, 't' as u8,
    'e' as u8, 0x20,
];

/// `<STX>sAN SetAccessMode `: opens the answer to an access mode request.
pub const SET_ACCESS_MODE_TAG: [u8; 19] = [
    0x02, 's' as u8, 'A' as u8, 'N' as u8, 0x20, 'S' as u8, 'e' as u8, 't' as u8, 'A' as u8,
    'c' as u8, 'c' as u8, 'e' as u8, 's' as u8, 's' as u8, 'M' as u8, 'o' as u8, 'd' as u8,
    'e' as u8, 0x20,
];

/// `<STX>sAN LMCstartmeas `: opens the answer to a start of measurement.
pub const START_MEASUREMENT_TAG: [u8; 18] = [
    0x02, 's' as u8, 'A' as u8, 'N' as u8, 0x20, 'L' as u8, 'M' as u8, 'C' as u8, 's' as u8,
    't' as u8, 'a' as u8, 'r' as u8, 't' as u8, 'm' as u8, 'e' as u8, 'a' as u8, 's' as u8,
    0x20,
];

/// `<STX>sAN LMCstopmeas `: opens the answer to a stop of measurement.
pub const STOP_MEASUREMENT_TAG: [u8; 17] = [
    0x02, 's' as u8, 'A' as u8, 'N' as u8, 0x20, 'L' as u8, 'M' as u8, 'C' as u8, 's' as u8,
    't' as u8, 'o' as u8, 'p' as u8, 'm' as u8, 'e' as u8, 'a' as u8, 's' as u8, 0x20,
];

/// `<STX>sWA SetActiveApplications<ETX>`: the whole acknowledgement of an
/// application activation.
pub const SET_ACTIVE_APPLICATIONS_ACK: [u8; 27] = [
    0x02, 's' as u8, 'W' as u8, 'A' as u8, 0x20, 'S' as u8, 'e' as u8, 't' as u8, 'A' as u8,
    'c' as u8, 't' as u8, 'i' as u8, 'v' as u8, 'e' as u8, 'A' as u8, 'p' as u8, 'p' as u8,
    'l' as u8, 'i' as u8, 'c' as u8, 'a' as u8, 't' as u8, 'i' as u8, 'o' as u8, 'n' as u8,
    's' as u8, 0x03,
];

/// `<STX>sAN Run `: opens the answer to a run request.
pub const RUN_TAG: [u8; 9] = [
    0x02, 's' as u8, 'A' as u8, 'N' as u8, 0x20, 'R' as u8, 'u' as u8, 'n' as u8, 0x20,
];

/// `<STX>sRA LMDscandata `: opens a scan data telegram.
pub const SCAN_DATA_TAG: [u8; 17] = [
    0x02, 's' as u8, 'R' as u8, 'A' as u8, 0x20, 'L' as u8, 'M' as u8, 'D' as u8, 's' as u8,
    'c' as u8, 'a' as u8, 'n' as u8, 'd' as u8, 'a' as u8, 't' as u8, 'a' as u8, 0x20,
];

/// `1 `: the marker between the two groups of ignored fields of a scan data
/// telegram, a literal `1` and exactly one space.
pub const SCAN_DATA_MARKER: [u8; 2] = [
    '1' as u8, 0x20,
];

/// Number of ignored fields between the scan data tag and the marker.
pub const LEADING_FIELDS: usize = 17;

/// Number of ignored fields between the marker and the sample count.
pub const FOLLOWING_FIELDS: usize = 5;

/// What reading one piece of a telegram at some index of a buffer gives.
pub enum Parsed<T> {
    /// The piece is there: its value, and the index just past it.
    Done(T, int),
    /// The buffer ends before the piece can be told.
    Incomplete,
    /// The bytes at hand rule the piece out.
    Fail,
}

/// What decoding a buffer from its start gives.
pub enum Outcome {
    /// The buffer starts with a telegram: the response, and the telegram's length.
    Matched(ResponseView, int),
    /// Not enough bytes yet to decide.
    Incomplete,
    /// No telegram starts like this buffer, however it goes on.
    NoMatch,
}

impl Outcome {
    /// This outcome, or `next` where this rule rules itself out.
    pub open spec fn otherwise(self, next: Outcome) -> Outcome {
        if self is NoMatch {
            next
        } else {
            self
        }
    }
}

/// The first `upto` bytes of `tag` equal the bytes of `s` from `at` on, letter case aside.
pub open spec fn tag_agrees(s: Seq<u8>, at: int, tag: Seq<u8>, upto: int) -> bool {
    forall|i: int| 0 <= i < upto ==> lowercase(s[at + i]) == lowercase(#[trigger] tag[i])
}

/// Literal text at index `at`, compared without regard to letter case. It
/// fails on the first byte that differs, and is incomplete while the buffer
/// ends inside text that agrees so far.
pub open spec fn tag_at(s: Seq<u8>, at: int, tag: Seq<u8>) -> Parsed<()> {
    let present = if s.len() - at < tag.len() {
        s.len() - at
    } else {
        tag.len() as int
    };
    if !tag_agrees(s, at, tag, present) {
        Parsed::Fail
    } else if present < tag.len() {
        Parsed::Incomplete
    } else {
        Parsed::Done((), at + tag.len())
    }
}

/// A whole telegram made of a tag, one decimal digit and `<ETX>`. The value
/// is the digit as a number.
pub open spec fn status_at(s: Seq<u8>, tag: Seq<u8>) -> Parsed<u8> {
    match tag_at(s, 0, tag) {
        Parsed::Done(_, digit) => {
            if digit >= s.len() {
                Parsed::Incomplete
            } else if !is_digit(s[digit]) {
                Parsed::Fail
            } else if digit + 1 >= s.len() {
                Parsed::Incomplete
            } else if s[digit + 1] != END {
                Parsed::Fail
            } else {
                Parsed::Done((s[digit] - 0x30) as u8, digit + 2)
            }
        },
        Parsed::Incomplete => Parsed::Incomplete,
        Parsed::Fail => Parsed::Fail,
    }
}

/// The telegrams that answer with one status digit.
#[derive(Clone, Copy, Debug, PartialEq, Eq)]
pub enum StatusKind {
    DeviceState,
    SetAccessMode,
    StartMeasurement,
    StopMeasurement,
    Run,
}

impl StatusKind {
    /// The text that opens this kind of telegram.
    pub open spec fn tag(self) -> Seq<u8> {
        match self {
            StatusKind::DeviceState => DEVICE_STATE_TAG@,
            StatusKind::SetAccessMode => SET_ACCESS_MODE_TAG@,
            StatusKind::StartMeasurement => START_MEASUREMENT_TAG@,
            StatusKind::StopMeasurement => STOP_MEASUREMENT_TAG@,
            StatusKind::Run => RUN_TAG@,
        }
    }

    /// What a status digit means in this kind of telegram; `None` for a digit
    /// the protocol gives no meaning.
    pub open spec fn meaning(self, digit: u8) -> Option<ResponseView> {
        match self {
            StatusKind::DeviceState => if digit == 0 {
                Some(ResponseView::DeviceState(DeviceState::Busy))
            } else if digit == 1 {
                Some(ResponseView::DeviceState(DeviceState::Ready))
            } else if digit == 2 {
                Some(ResponseView::DeviceState(DeviceState::Error))
            } else {
                None
            },
            StatusKind::SetAccessMode => if digit == 0 {
                Some(ResponseView::SetAccessMode(SetAccessModeResult::Error))
            } else if digit == 1 {
                Some(ResponseView::SetAccessMode(SetAccessModeResult::Success))
            } else {
                None
            },
            StatusKind::StartMeasurement => if digit == 0 {
                Some(ResponseView::StartMeasurement(StartMeasurementResult::Success))
            } else if digit == 1 {
                Some(ResponseView::StartMeasurement(StartMeasurementResult::NotAllowed))
            } else {
                None
            },
            StatusKind::StopMeasurement => if digit == 0 {
                Some(ResponseView::StopMeasurement(StopMeasurementResult::Success))
            } else if digit == 1 {
                Some(ResponseView::StopMeasurement(StopMeasurementResult::NotAllowed))
            } else {
                None
            },
            StatusKind::Run => if digit == 0 {
                Some(ResponseView::Run(RunResult::Error))
            } else if digit == 1 {
                Some(ResponseView::Run(RunResult::Success))
            } else {
                None
            },
        }
    }
}

/// The rule of one kind of status telegram. A digit without a meaning rules
/// the telegram out once the telegram is whole.
pub open spec fn status_rule(s: Seq<u8>, kind: StatusKind) -> Outcome {
    match status_at(s, kind.tag()) {
        Parsed::Done(digit, end) => match kind.meaning(digit) {
            Some(response) => Outcome::Matched(response, end),
            None => Outcome::NoMatch,
        },
        Parsed::Incomplete => Outcome::Incomplete,
        Parsed::Fail => Outcome::NoMatch,
    }
}

/// The rule of the application activation acknowledgement: one literal.
pub open spec fn activation_rule(s: Seq<u8>) -> Outcome {
    match tag_at(s, 0, SET_ACTIVE_APPLICATIONS_ACK@) {
        Parsed::Done(_, end) => Outcome::Matched(ResponseView::SetActiveApplications, end),
        Parsed::Incomplete => Outcome::Incomplete,
        Parsed::Fail => Outcome::NoMatch,
    }
}

/// One ignored field and the blanks after it: at least one byte that is no
/// blank, then at least one blank. The field is told only once a blank is
/// seen; the blanks are as many as the buffer holds there.
pub open spec fn field_at(s: Seq<u8>, at: int) -> Parsed<()> {
    let stop = run_end(s, at, ByteClass::NonSpace);
    if stop >= s.len() {
        Parsed::Incomplete
    } else if stop == at {
        Parsed::Fail
    } else {
        Parsed::Done((), run_end(s, stop, ByteClass::Space))
    }
}

/// `count` ignored fields in a row.
pub open spec fn fields_at(s: Seq<u8>, at: int, count: nat) -> Parsed<()>
    decreases count,
{
    if count == 0 {
        Parsed::Done((), at)
    } else {
        match field_at(s, at) {
            Parsed::Done(_, next) => fields_at(s, next, (count - 1) as nat),
            Parsed::Incomplete => Parsed::Incomplete,
            Parsed::Fail => Parsed::Fail,
        }
    }
}

/// One hexadecimal number and the blanks after it: at least one digit, then
/// at least one blank. It fails where the digits are followed by anything
/// else, and where the number does not fit a `usize`.
pub open spec fn number_at(s: Seq<u8>, at: int) -> Parsed<usize> {
    let stop = run_end(s, at, ByteClass::HexDigit);
    if stop >= s.len() {
        Parsed::Incomplete
    } else if stop == at || !is_space(s[stop]) || hex_value(s.subrange(at, stop)) > usize::MAX {
        Parsed::Fail
    } else {
        Parsed::Done(hex_value(s.subrange(at, stop)) as usize, run_end(s, stop, ByteClass::Space))
    }
}

/// `count` hexadecimal numbers in a row, in the order they stand.
pub open spec fn numbers_at(s: Seq<u8>, at: int, count: nat) -> Parsed<Seq<usize>>
    decreases count,
{
    if count == 0 {
        Parsed::Done(Seq::empty(), at)
    } else {
        match number_at(s, at) {
            Parsed::Done(value, next) => numbers_at(s, next, (count - 1) as nat).preceded_by(
                seq![value],
            ),
            Parsed::Incomplete => Parsed::Incomplete,
            Parsed::Fail => Parsed::Fail,
        }
    }
}

impl Parsed<Seq<usize>> {
    /// The same result with `earlier` put before the numbers.
    pub open spec fn preceded_by(self, earlier: Seq<usize>) -> Parsed<Seq<usize>> {
        match self {
            Parsed::Done(values, end) => Parsed::Done(earlier + values, end),
            Parsed::Incomplete => Parsed::Incomplete,
            Parsed::Fail => Parsed::Fail,
        }
    }
}

/// What follows the samples: at least one byte that is not `<ETX>`, all of
/// them ignored, then `<ETX>`.
pub open spec fn remainder_at(s: Seq<u8>, at: int) -> Parsed<()> {
    let stop = run_end(s, at, ByteClass::NotEnd);
    if stop >= s.len() {
        Parsed::Incomplete
    } else if stop == at {
        Parsed::Fail
    } else {
        Parsed::Done((), stop + 1)
    }
}

/// The rule of scan data: the tag, seventeen ignored fields, the marker, five
/// ignored fields, the sample count, that many samples, the ignored
/// remainder and `<ETX>`.
pub open spec fn scan_data_rule(s: Seq<u8>) -> Outcome {
    match tag_at(s, 0, SCAN_DATA_TAG@) {
        Parsed::Done(_, next) => scan_leading_fields(s, next),
        Parsed::Incomplete => Outcome::Incomplete,
        Parsed::Fail => Outcome::NoMatch,
    }
}

/// Scan data from the first ignored field on.
pub open spec fn scan_leading_fields(s: Seq<u8>, at: int) -> Outcome {
    match fields_at(s, at, LEADING_FIELDS as nat) {
        Parsed::Done(_, next) => scan_marker(s, next),
        Parsed::Incomplete => Outcome::Incomplete,
        Parsed::Fail => Outcome::NoMatch,
    }
}

/// Scan data from the marker on.
pub open spec fn scan_marker(s: Seq<u8>, at: int) -> Outcome {
    match tag_at(s, at, SCAN_DATA_MARKER@) {
        Parsed::Done(_, next) => scan_following_fields(s, next),
        Parsed::Incomplete => Outcome::Incomplete,
        Parsed::Fail => Outcome::NoMatch,
    }
}

/// Scan data from the first ignored field after the marker on.
pub open spec fn scan_following_fields(s: Seq<u8>, at: int) -> Outcome {
    match fields_at(s, at, FOLLOWING_FIELDS as nat) {
        Parsed::Done(_, next) => scan_count(s, next),
        Parsed::Incomplete => Outcome::Incomplete,
        Parsed::Fail => Outcome::NoMatch,
    }
}

/// Scan data from the sample count on.
pub open spec fn scan_count(s: Seq<u8>, at: int) -> Outcome {
    match number_at(s, at) {
        Parsed::Done(count, next) => scan_samples(s, next, count as nat),
        Parsed::Incomplete => Outcome::Incomplete,
        Parsed::Fail => Outcome::NoMatch,
    }
}

/// Scan data from the first of `count` samples on.
pub open spec fn scan_samples(s: Seq<u8>, at: int, count: nat) -> Outcome {
    match numbers_at(s, at, count) {
        Parsed::Done(values, next) => scan_remainder(s, next, values),
        Parsed::Incomplete => Outcome::Incomplete,
        Parsed::Fail => Outcome::NoMatch,
    }
}

/// Scan data from the byte after the last sample on.
pub open spec fn scan_remainder(s: Seq<u8>, at: int, values: Seq<usize>) -> Outcome {
    match remainder_at(s, at) {
        Parsed::Done(_, end) => Outcome::Matched(ResponseView::ScanData(values), end),
        Parsed::Incomplete => Outcome::Incomplete,
        Parsed::Fail => Outcome::NoMatch,
    }
}

/// What the bytes at the start of `s` decode to. The rules are tried in a
/// fixed order, and the first that does not rule itself out decides.
pub open spec fn spec_response(s: Seq<u8>) -> Outcome {
    status_rule(s, StatusKind::DeviceState).otherwise(
        status_rule(s, StatusKind::SetAccessMode).otherwise(
            status_rule(s, StatusKind::StartMeasurement).otherwise(
                status_rule(s, StatusKind::StopMeasurement).otherwise(
                    activation_rule(s).otherwise(
                        status_rule(s, StatusKind::Run).otherwise(scan_data_rule(s)),
                    ),
                ),
            ),
        ),
    )
}

} // verus!
