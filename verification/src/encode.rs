//! The wire bytes of what the client sends, and of the scan data telegram
//! the device answers with.

use crate::ascii::{END, SPACE};
use crate::grammar::{FOLLOWING_FIELDS, LEADING_FIELDS, SCAN_DATA_MARKER, SCAN_DATA_TAG};
use crate::hex::{hex_digits, push_hex};
use crate::telegram::{Application, ApplicationActivation, Request};
use vstd::prelude::*;

verus! {

/// `<STX>sRN SCdevicestate<ETX>`
pub const DEVICE_STATE_REQUEST: [u8; 19] = [
    0x02, 's' as u8, 'R' as u8, 'N' as u8, 0x20, 'S' as u8, 'C' as u8, 'd' as u8, 'e' as u8,
    'v' as u8, 'i' as u8, 'c' as u8, 'e' as u8, 's' as u8, 't' as u8, 'a' as u8, 't' as u8,
    'e' as u8, 0x03,
];

/// `<STX>sMN SetAccessMode 03 F4724744<ETX>`: the access level and its fixed
/// authorization code.
pub const SET_ACCESS_MODE_REQUEST: [u8; 31] = [
    0x02, 's' as u8, 'M' as u8, 'N' as u8, 0x20, 'S' as u8, 'e' as u8, 't' as u8, 'A' as u8,
    'c' as u8, 'c' as u8, 'e' as u8, 's' as u8, 's' as u8, 'M' as u8, 'o' as u8, 'd' as u8,
    'e' as u8, 0x20, '0' as u8, '3' as u8, 0x20, 'F' as u8, '4' as u8, '7' as u8, '2' as u8,
    '4' as u8, '7' as u8, '4' as u8, '4' as u8, 0x03,
];

/// `<STX>sMN LMCstartmeas<ETX>`
pub const START_MEASUREMENT_REQUEST: [u8; 18] = [
    0x02, 's' as u8, 'M' as u8, 'N' as u8, 0x20, 'L' as u8, 'M' as u8, 'C' as u8, 's' as u8,
    't' as u8, 'a' as u8, 'r' as u8, 't' as u8, 'm' as u8, 'e' as u8, 'a' as u8, 's' as u8,
    0x03,
];

/// `<STX>sMN LMCstopmeas<ETX>`
pub const STOP_MEASUREMENT_REQUEST: [u8; 17] = [
    0x02, 's' as u8, 'M' as u8, 'N' as u8, 0x20, 'L' as u8, 'M' as u8, 'C' as u8, 's' as u8,
    't' as u8, 'o' as u8, 'p' as u8, 'm' as u8, 'e' as u8, 'a' as u8, 's' as u8, 0x03,
];

/// `<STX>sWN SetActiveApplications 1 `: what every application activation
/// starts with; the application code, a space, the digit and `<ETX>` follow.
pub const SET_ACTIVE_APPLICATIONS_REQUEST: [u8; 29] = [
    0x02, 's' as u8, 'W' as u8, 'N' as u8, 0x20, 'S' as u8, 'e' as u8, 't' as u8, 'A' as u8,
    'c' as u8, 't' as u8, 'i' as u8, 'v' as u8, 'e' as u8, 'A' as u8, 'p' as u8, 'p' as u8,
    'l' as u8, 'i' as u8, 'c' as u8, 'a' as u8, 't' as u8, 'i' as u8, 'o' as u8, 'n' as u8,
    's' as u8, 0x20, '1' as u8, 0x20,
];

/// `FEVL`: the code of the field monitoring application.
pub const FIELD_CODE: [u8; 4] = [
    'F' as u8, 'E' as u8, 'V' as u8, 'L' as u8,
];

/// `RANG`: the code of the ranging application.
pub const RANGING_CODE: [u8; 4] = [
    'R' as u8, 'A' as u8, 'N' as u8, 'G' as u8,
];

/// `<STX>sMN Run<ETX>`
pub const RUN_REQUEST: [u8; 9] = [
    0x02, 's' as u8, 'M' as u8, 'N' as u8, 0x20, 'R' as u8, 'u' as u8, 'n' as u8, 0x03,
];

/// `<STX>sRN LMDscandata<ETX>`
pub const SCAN_DATA_REQUEST: [u8; 17] = [
    0x02, 's' as u8, 'R' as u8, 'N' as u8, 0x20, 'L' as u8, 'M' as u8, 'D' as u8, 's' as u8,
    'c' as u8, 'a' as u8, 'n' as u8, 'd' as u8, 'a' as u8, 't' as u8, 'a' as u8, 0x03,
];

/// The digit `0`: what the scan data telegram written here puts into every
/// field that a reader ignores.
pub const ZERO: u8 = 0x30;

/// The digit `1`.
pub const ONE: u8 = 0x31;

impl Application {
    /// The four upper-case letters that name the application on the wire.
    pub open spec fn code(self) -> Seq<u8> {
        match self {
            Application::Field => FIELD_CODE@,
            Application::Ranging => RANGING_CODE@,
        }
    }
}

impl ApplicationActivation {
    /// The digit that stands for the activation on the wire: `1` enables, `0` disables.
    pub open spec fn digit(self) -> u8 {
        match self {
            ApplicationActivation::Enabled => ONE,
            ApplicationActivation::Disabled => ZERO,
        }
    }
}

/// Appends `bytes` to `out`.
pub fn push_bytes(out: &mut Vec<u8>, bytes: &[u8])
    ensures
        final(out)@ == old(out)@ + bytes@,
{
    let mut i: usize = 0;
    while i < bytes.len()
        invariant
            i <= bytes@.len(),
            out@ == old(out)@ + bytes@.take(i as int),
        decreases bytes@.len() - i,
    {
        out.push(bytes[i]);
        assert(bytes@.take(i + 1) =~= bytes@.take(i as int).push(bytes@[i as int]));
        assert((old(out)@ + bytes@.take(i as int)).push(bytes@[i as int]) =~= old(out)@
            + bytes@.take(i + 1));
        i += 1;
    }
    assert(bytes@.take(i as int) =~= bytes@);
}

impl Request {
    /// The exact bytes of the request on the wire, delimiters included.
    pub open spec fn wire(self) -> Seq<u8> {
        match self {
            Request::DeviceState => DEVICE_STATE_REQUEST@,
            Request::SetAccessMode => SET_ACCESS_MODE_REQUEST@,
            Request::StartMeasurement => START_MEASUREMENT_REQUEST@,
            Request::StopMeasurement => STOP_MEASUREMENT_REQUEST@,
            Request::SetApplicationActivation(application, activation) =>
                SET_ACTIVE_APPLICATIONS_REQUEST@ + application.code() + seq![
                SPACE,
                activation.digit(),
                END,
            ],
            Request::Run => RUN_REQUEST@,
            Request::ScanData => SCAN_DATA_REQUEST@,
        }
    }

    /// Encodes the request. Never fails, and gives the same bytes for the
    /// same request every time.
    pub fn encode(&self) -> (bytes: Vec<u8>)
        ensures
            bytes@ == self.wire(),
    {
        let mut bytes: Vec<u8> = Vec::new();
        match self {
            Request::DeviceState => push_bytes(&mut bytes, DEVICE_STATE_REQUEST.as_slice()),
            Request::SetAccessMode => push_bytes(&mut bytes, SET_ACCESS_MODE_REQUEST.as_slice()),
            Request::StartMeasurement => push_bytes(
                &mut bytes,
                START_MEASUREMENT_REQUEST.as_slice(),
            ),
            Request::StopMeasurement => push_bytes(
                &mut bytes,
                STOP_MEASUREMENT_REQUEST.as_slice(),
            ),
            Request::SetApplicationActivation(application, activation) => {
                push_bytes(&mut bytes, SET_ACTIVE_APPLICATIONS_REQUEST.as_slice());
                match application {
                    Application::Field => push_bytes(&mut bytes, FIELD_CODE.as_slice()),
                    Application::Ranging => push_bytes(&mut bytes, RANGING_CODE.as_slice()),
                }
                bytes.push(SPACE);
                bytes.push(
                    match activation {
                        ApplicationActivation::Enabled => ONE,
                        ApplicationActivation::Disabled => ZERO,
                    },
                );
                bytes.push(END);
                assert(bytes@ =~= self.wire());
            },
            Request::Run => push_bytes(&mut bytes, RUN_REQUEST.as_slice()),
            Request::ScanData => push_bytes(&mut bytes, SCAN_DATA_REQUEST.as_slice()),
        }
        assert(bytes@ =~= self.wire());
        bytes
    }
}

/// `count` fields that hold the digit `0`, each followed by one space.
pub open spec fn zero_fields(count: nat) -> Seq<u8>
    decreases count,
{
    if count == 0 {
        Seq::empty()
    } else {
        seq![ZERO, SPACE] + zero_fields((count - 1) as nat)
    }
}

/// One number in upper-case hexadecimal, followed by one space.
pub open spec fn number_field(value: nat) -> Seq<u8> {
    hex_digits(value).push(SPACE)
}

/// The numbers of `values` in their order, each as in `number_field`.
pub open spec fn number_fields(values: Seq<usize>) -> Seq<u8>
    decreases values.len(),
{
    if values.len() == 0 {
        Seq::empty()
    } else {
        number_field(values.first() as nat) + number_fields(values.drop_first())
    }
}

/// The bytes of a scan data telegram that carries `values`: the tag,
/// seventeen fields `0`, the marker, five fields `0`, the number of samples,
/// the samples, one field `0` and `<ETX>`.
pub open spec fn scan_data_telegram(values: Seq<usize>) -> Seq<u8> {
    SCAN_DATA_TAG@ + zero_fields(LEADING_FIELDS as nat) + SCAN_DATA_MARKER@ + zero_fields(
        FOLLOWING_FIELDS as nat,
    ) + number_field(values.len()) + number_fields(values) + seq![ZERO, END]
}

/// Appending one more `0` field.
proof fn lemma_zero_fields_push(count: nat)
    ensures
        zero_fields(count + 1) == zero_fields(count) + seq![ZERO, SPACE],
    decreases count,
{
    if count == 0 {
        assert(zero_fields(1) =~= seq![ZERO, SPACE] + zero_fields(0));
        assert(zero_fields(1) =~= zero_fields(0) + seq![ZERO, SPACE]);
    } else {
        lemma_zero_fields_push((count - 1) as nat);
        assert(zero_fields(count + 1) =~= seq![ZERO, SPACE] + zero_fields(count));
        assert(seq![ZERO, SPACE] + (zero_fields((count - 1) as nat) + seq![ZERO, SPACE])
            =~= zero_fields(count) + seq![ZERO, SPACE]);
    }
}

/// Appending one more number field.
proof fn lemma_number_fields_push(values: Seq<usize>, value: usize)
    ensures
        number_fields(values.push(value)) == number_fields(values) + number_field(value as nat),
    decreases values.len(),
{
    let longer = values.push(value);
    if values.len() == 0 {
        assert(longer.drop_first() =~= Seq::<usize>::empty());
        assert(number_fields(longer) =~= number_field(value as nat) + number_fields(
            Seq::<usize>::empty(),
        ));
        assert(number_fields(longer) =~= number_fields(values) + number_field(value as nat));
    } else {
        lemma_number_fields_push(values.drop_first(), value);
        assert(longer.drop_first() =~= values.drop_first().push(value));
        assert(longer.first() == values.first());
        assert(number_field(values.first() as nat) + (number_fields(values.drop_first())
            + number_field(value as nat)) =~= number_fields(values) + number_field(value as nat));
    }
}

/// Appends `count` fields `0`.
fn push_zero_fields(out: &mut Vec<u8>, count: usize)
    ensures
        final(out)@ == old(out)@ + zero_fields(count as nat),
{
    let mut done: usize = 0;
    assert(old(out)@ + zero_fields(0) =~= old(out)@);
    while done < count
        invariant
            done <= count,
            out@ == old(out)@ + zero_fields(done as nat),
        decreases count - done,
    {
        out.push(ZERO);
        out.push(SPACE);
        proof {
            lemma_zero_fields_push(done as nat);
            assert((old(out)@ + zero_fields(done as nat)).push(ZERO).push(SPACE) =~= old(out)@ + (
            zero_fields(done as nat) + seq![ZERO, SPACE]));
        }
        done += 1;
    }
}

/// Appends one number in upper-case hexadecimal and a space.
fn push_number_field(out: &mut Vec<u8>, value: usize)
    ensures
        final(out)@ == old(out)@ + number_field(value as nat),
{
    push_hex(out, value);
    out.push(SPACE);
    assert((old(out)@ + hex_digits(value as nat)).push(SPACE) =~= old(out)@ + number_field(
        value as nat,
    ));
}

/// Writes the scan data telegram that carries `values`, as the device would
/// send it.
pub fn encode_scan_data(values: &[usize]) -> (bytes: Vec<u8>)
    ensures
        bytes@ == scan_data_telegram(values@),
{
    let mut bytes: Vec<u8> = Vec::new();
    push_bytes(&mut bytes, SCAN_DATA_TAG.as_slice());
    push_zero_fields(&mut bytes, LEADING_FIELDS);
    push_bytes(&mut bytes, SCAN_DATA_MARKER.as_slice());
    push_zero_fields(&mut bytes, FOLLOWING_FIELDS);
    push_number_field(&mut bytes, values.len());
    let ghost head = bytes@;
    let mut i: usize = 0;
    assert(head + number_fields(values@.take(0)) =~= head);
    while i < values.len()
        invariant
            i <= values@.len(),
            bytes@ == head + number_fields(values@.take(i as int)),
        decreases values@.len() - i,
    {
        push_number_field(&mut bytes, values[i]);
        proof {
            lemma_number_fields_push(values@.take(i as int), values@[i as int]);
            assert(values@.take(i + 1) =~= values@.take(i as int).push(values@[i as int]));
            assert((head + number_fields(values@.take(i as int))) + number_field(
                values@[i as int] as nat,
            ) =~= head + number_fields(values@.take(i + 1)));
        }
        i += 1;
    }
    assert(values@.take(i as int) =~= values@);
    bytes.push(ZERO);
    bytes.push(END);
    assert(bytes@ =~= scan_data_telegram(values@));
    bytes
}

} // verus!
