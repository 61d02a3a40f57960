//! The decoder of inbound telegrams: the grammar, run on a buffer.

use crate::ascii::{is_digit, is_space, lowercase, scan_run, ByteClass, END};
use crate::grammar::{
    activation_rule, field_at, fields_at, number_at, numbers_at, remainder_at, scan_data_rule,
    spec_response, status_rule, tag_agrees, tag_at, Outcome, Parsed, StatusKind,
    DEVICE_STATE_TAG, FOLLOWING_FIELDS, LEADING_FIELDS, RUN_TAG, SCAN_DATA_MARKER, SCAN_DATA_TAG,
    SET_ACCESS_MODE_TAG, SET_ACTIVE_APPLICATIONS_ACK, START_MEASUREMENT_TAG,
    STOP_MEASUREMENT_TAG,
};
use crate::hex::parse_hex;
use crate::telegram::{
    DeviceState, Response, RunResult, SetAccessModeResult, StartMeasurementResult,
    StopMeasurementResult,
};
use vstd::prelude::*;

verus! {

/// What decoding a buffer from its start gives.
#[derive(Clone, Debug, PartialEq, Eq)]
pub enum Decoded {
    /// The buffer starts with a telegram: the response, and how many bytes
    /// the telegram takes. The caller drops that many and keeps the rest.
    Matched(Response, usize),
    /// Not enough bytes yet to decide: the buffer has to grow.
    Incomplete,
    /// No telegram starts like this buffer, however it goes on.
    NoMatch,
}

impl View for Decoded {
    type V = Outcome;

    open spec fn view(&self) -> Outcome {
        match self {
            Decoded::Matched(response, consumed) => Outcome::Matched(response@, *consumed as int),
            Decoded::Incomplete => Outcome::Incomplete,
            Decoded::NoMatch => Outcome::NoMatch,
        }
    }
}

/// What reading one piece of a telegram at some index of a buffer gives.
enum Scanned<T> {
    /// The piece is there: its value, and the index just past it.
    Done(T, usize),
    /// The buffer ends before the piece can be told.
    Incomplete,
    /// The bytes at hand rule the piece out.
    Fail,
}

impl<T: View> View for Scanned<T> {
    type V = Parsed<T::V>;

    closed spec fn view(&self) -> Parsed<T::V> {
        match self {
            Scanned::Done(value, end) => Parsed::Done(value@, *end as int),
            Scanned::Incomplete => Parsed::Incomplete,
            Scanned::Fail => Parsed::Fail,
        }
    }
}

/// Reads the literal `tag` at index `at`, without regard to letter case.
fn tag_no_case(input: &[u8], at: usize, tag: &[u8]) -> (r: Scanned<()>)
    requires
        at <= input@.len(),
    ensures
        r@ == tag_at(input@, at as int, tag@),
{
    let available: usize = input.len() - at;
    let present: usize = if available < tag.len() {
        available
    } else {
        tag.len()
    };
    let mut i: usize = 0;
    while i < present
        invariant
            i <= present,
            present <= tag@.len(),
            at + present <= input@.len() <= usize::MAX,
            tag_agrees(input@, at as int, tag@, i as int),
        decreases present - i,
    {
        if lowercase(input[at + i]) != lowercase(tag[i]) {
            return Scanned::Fail;
        }
        i += 1;
    }
    if present < tag.len() {
        Scanned::Incomplete
    } else {
        Scanned::Done((), at + present)
    }
}

/// The response a status digit stands for in a telegram of kind `kind`.
fn status_response(kind: StatusKind, digit: u8) -> (r: Option<Response>)
    ensures
        match r {
            Some(response) => kind.meaning(digit) == Some(response@),
            None => kind.meaning(digit) is None,
        },
{
    match kind {
        StatusKind::DeviceState => if digit == 0 {
            Some(Response::DeviceState(DeviceState::Busy))
        } else if digit == 1 {
            Some(Response::DeviceState(DeviceState::Ready))
        } else if digit == 2 {
            Some(Response::DeviceState(DeviceState::Error))
        } else {
            None
        },
        StatusKind::SetAccessMode => if digit == 0 {
            Some(Response::SetAccessMode(SetAccessModeResult::Error))
        } else if digit == 1 {
            Some(Response::SetAccessMode(SetAccessModeResult::Success))
        } else {
            None
        },
        StatusKind::StartMeasurement => if digit == 0 {
            Some(Response::StartMeasurement(StartMeasurementResult::Success))
        } else if digit == 1 {
            Some(Response::StartMeasurement(StartMeasurementResult::NotAllowed))
        } else {
            None
        },
        StatusKind::StopMeasurement => if digit == 0 {
            Some(Response::StopMeasurement(StopMeasurementResult::Success))
        } else if digit == 1 {
            Some(Response::StopMeasurement(StopMeasurementResult::NotAllowed))
        } else {
            None
        },
        StatusKind::Run => if digit == 0 {
            Some(Response::Run(RunResult::Error))
        } else if digit == 1 {
            Some(Response::Run(RunResult::Success))
        } else {
            None
        },
    }
}

/// Decodes one kind of status telegram: its tag, one digit, `<ETX>`.
pub fn status(input: &[u8], kind: StatusKind) -> (decoded: Decoded)
    ensures
        decoded@ == status_rule(input@, kind),
{
    let opened = match kind {
        StatusKind::DeviceState => tag_no_case(input, 0, DEVICE_STATE_TAG.as_slice()),
        StatusKind::SetAccessMode => tag_no_case(input, 0, SET_ACCESS_MODE_TAG.as_slice()),
        StatusKind::StartMeasurement => tag_no_case(input, 0, START_MEASUREMENT_TAG.as_slice()),
        StatusKind::StopMeasurement => tag_no_case(input, 0, STOP_MEASUREMENT_TAG.as_slice()),
        StatusKind::Run => tag_no_case(input, 0, RUN_TAG.as_slice()),
    };
    match opened {
        Scanned::Done(_, digit) => {
            if digit >= input.len() {
                Decoded::Incomplete
            } else if !is_digit(input[digit]) {
                Decoded::NoMatch
            } else if digit + 1 >= input.len() {
                Decoded::Incomplete
            } else if input[digit + 1] != END {
                Decoded::NoMatch
            } else {
                match status_response(kind, input[digit] - 0x30) {
                    Some(response) => Decoded::Matched(response, digit + 2),
                    None => Decoded::NoMatch,
                }
            }
        },
        Scanned::Incomplete => Decoded::Incomplete,
        Scanned::Fail => Decoded::NoMatch,
    }
}

/// Decodes the application activation acknowledgement.
pub fn activation(input: &[u8]) -> (decoded: Decoded)
    ensures
        decoded@ == activation_rule(input@),
{
    match tag_no_case(input, 0, SET_ACTIVE_APPLICATIONS_ACK.as_slice()) {
        Scanned::Done(_, end) => Decoded::Matched(Response::SetActiveApplications, end),
        Scanned::Incomplete => Decoded::Incomplete,
        Scanned::Fail => Decoded::NoMatch,
    }
}

/// Reads one ignored field and the blanks after it.
fn field(input: &[u8], at: usize) -> (r: Scanned<()>)
    requires
        at <= input@.len(),
    ensures
        r@ == field_at(input@, at as int),
        r matches Scanned::Done(_, end) ==> at < end <= input@.len(),
{
    let stop = scan_run(input, at, ByteClass::NonSpace);
    if stop >= input.len() {
        Scanned::Incomplete
    } else if stop == at {
        Scanned::Fail
    } else {
        Scanned::Done((), scan_run(input, stop, ByteClass::Space))
    }
}

/// Reads `count` ignored fields in a row.
fn fields(input: &[u8], at: usize, count: usize) -> (r: Scanned<()>)
    requires
        at <= input@.len(),
    ensures
        r@ == fields_at(input@, at as int, count as nat),
        r matches Scanned::Done(_, end) ==> at <= end <= input@.len(),
{
    let mut next: usize = at;
    let mut left: usize = count;
    while left > 0
        invariant
            at <= next <= input@.len(),
            fields_at(input@, at as int, count as nat) == fields_at(
                input@,
                next as int,
                left as nat,
            ),
        decreases left,
    {
        match field(input, next) {
            Scanned::Done(_, end) => {
                next = end;
                left -= 1;
            },
            Scanned::Incomplete => {
                return Scanned::Incomplete;
            },
            Scanned::Fail => {
                return Scanned::Fail;
            },
        }
    }
    Scanned::Done((), next)
}

/// Reads one hexadecimal number and the blanks after it.
fn number(input: &[u8], at: usize) -> (r: Scanned<usize>)
    requires
        at <= input@.len(),
    ensures
        r@ == number_at(input@, at as int),
        r matches Scanned::Done(_, end) ==> at < end <= input@.len(),
{
    let stop = scan_run(input, at, ByteClass::HexDigit);
    if stop >= input.len() {
        return Scanned::Incomplete;
    }
    if stop == at || !is_space(input[stop]) {
        return Scanned::Fail;
    }
    match parse_hex(&input[at..stop]) {
        Some(value) => Scanned::Done(value, scan_run(input, stop, ByteClass::Space)),
        None => Scanned::Fail,
    }
}

/// Reads `count` hexadecimal numbers in a row.
fn numbers(input: &[u8], at: usize, count: usize) -> (r: Scanned<Vec<usize>>)
    requires
        at <= input@.len(),
    ensures
        r@ == numbers_at(input@, at as int, count as nat),
        r matches Scanned::Done(_, end) ==> at <= end <= input@.len(),
{
    let mut values: Vec<usize> = Vec::new();
    let mut next: usize = at;
    let mut left: usize = count;
    while left > 0
        invariant
            at <= next <= input@.len(),
            numbers_at(input@, at as int, count as nat) == numbers_at(
                input@,
                next as int,
                left as nat,
            ).preceded_by(values@),
        decreases left,
    {
        match number(input, next) {
            Scanned::Done(value, end) => {
                proof {
                    let rest = numbers_at(input@, end as int, (left - 1) as nat);
                    if let Parsed::Done(later, _) = rest {
                        assert(values@ + (seq![value] + later) =~= values@.push(value) + later);
                    }
                }
                values.push(value);
                next = end;
                left -= 1;
            },
            Scanned::Incomplete => {
                return Scanned::Incomplete;
            },
            Scanned::Fail => {
                return Scanned::Fail;
            },
        }
    }
    proof {
        assert(values@ + Seq::<usize>::empty() =~= values@);
    }
    Scanned::Done(values, next)
}

/// Reads what follows the samples, up to and with `<ETX>`.
fn remainder(input: &[u8], at: usize) -> (r: Scanned<()>)
    requires
        at <= input@.len(),
    ensures
        r@ == remainder_at(input@, at as int),
{
    let stop = scan_run(input, at, ByteClass::NotEnd);
    if stop >= input.len() {
        Scanned::Incomplete
    } else if stop == at {
        Scanned::Fail
    } else {
        Scanned::Done((), stop + 1)
    }
}

/// Decodes a scan data telegram.
pub fn scan_data(input: &[u8]) -> (decoded: Decoded)
    ensures
        decoded@ == scan_data_rule(input@),
{
    let leading = match tag_no_case(input, 0, SCAN_DATA_TAG.as_slice()) {
        Scanned::Done(_, end) => end,
        Scanned::Incomplete => {
            return Decoded::Incomplete;
        },
        Scanned::Fail => {
            return Decoded::NoMatch;
        },
    };
    let marker = match fields(input, leading, LEADING_FIELDS) {
        Scanned::Done(_, end) => end,
        Scanned::Incomplete => {
            return Decoded::Incomplete;
        },
        Scanned::Fail => {
            return Decoded::NoMatch;
        },
    };
    let following = match tag_no_case(input, marker, SCAN_DATA_MARKER.as_slice()) {
        Scanned::Done(_, end) => end,
        Scanned::Incomplete => {
            return Decoded::Incomplete;
        },
        Scanned::Fail => {
            return Decoded::NoMatch;
        },
    };
    let counted = match fields(input, following, FOLLOWING_FIELDS) {
        Scanned::Done(_, end) => end,
        Scanned::Incomplete => {
            return Decoded::Incomplete;
        },
        Scanned::Fail => {
            return Decoded::NoMatch;
        },
    };
    let (count, first) = match number(input, counted) {
        Scanned::Done(value, end) => (value, end),
        Scanned::Incomplete => {
            return Decoded::Incomplete;
        },
        Scanned::Fail => {
            return Decoded::NoMatch;
        },
    };
    let (values, rest) = match numbers(input, first, count) {
        Scanned::Done(values, end) => (values, end),
        Scanned::Incomplete => {
            return Decoded::Incomplete;
        },
        Scanned::Fail => {
            return Decoded::NoMatch;
        },
    };
    match remainder(input, rest) {
        Scanned::Done(_, end) => Decoded::Matched(Response::ScanData { values }, end),
        Scanned::Incomplete => Decoded::Incomplete,
        Scanned::Fail => Decoded::NoMatch,
    }
}

/// Decodes the telegram at the start of `input`.
///
/// The rules are tried in their fixed order: device state, access mode,
/// start of measurement, stop of measurement, application activation, run,
/// scan data. The first that does not rule itself out decides.
pub fn response(input: &[u8]) -> (decoded: Decoded)
    ensures
        decoded@ == spec_response(input@),
{
    match status(input, StatusKind::DeviceState) {
        Decoded::NoMatch => {},
        decided => {
            return decided;
        },
    }
    match status(input, StatusKind::SetAccessMode) {
        Decoded::NoMatch => {},
        decided => {
            return decided;
        },
    }
    match status(input, StatusKind::StartMeasurement) {
        Decoded::NoMatch => {},
        decided => {
            return decided;
        },
    }
    match status(input, StatusKind::StopMeasurement) {
        Decoded::NoMatch => {},
        decided => {
            return decided;
        },
    }
    match activation(input) {
        Decoded::NoMatch => {},
        decided => {
            return decided;
        },
    }
    match status(input, StatusKind::Run) {
        Decoded::NoMatch => {},
        decided => {
            return decided;
        },
    }
    scan_data(input)
}

} // verus!
