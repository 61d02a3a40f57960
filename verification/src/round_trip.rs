//! A scan data telegram written by `encode_scan_data` decodes to the samples
//! it was written from.

use crate::ascii::{
    is_hex_digit, is_space, lemma_run_end_is, lowercase, ByteClass, END, SPACE,
};
use crate::encode::{number_field, number_fields, scan_data_telegram, zero_fields, ZERO};
use crate::grammar::{
    activation_rule, field_at, fields_at, number_at, numbers_at, remainder_at, scan_count,
    scan_data_rule, scan_following_fields, scan_leading_fields, scan_marker, scan_remainder,
    scan_samples, spec_response, status_rule, tag_at, Outcome, Parsed, StatusKind,
    DEVICE_STATE_TAG, FOLLOWING_FIELDS, LEADING_FIELDS, RUN_TAG, SCAN_DATA_MARKER, SCAN_DATA_TAG,
    SET_ACCESS_MODE_TAG, SET_ACTIVE_APPLICATIONS_ACK, START_MEASUREMENT_TAG,
    STOP_MEASUREMENT_TAG,
};
use crate::hex::{hex_digits, lemma_hex_digits};
use crate::telegram::ResponseView;
use vstd::prelude::*;

verus! {

/// `count` fields `0` take two bytes each.
proof fn lemma_zero_fields_len(count: nat)
    ensures
        zero_fields(count).len() == 2 * count,
    decreases count,
{
    if count > 0 {
        lemma_zero_fields_len((count - 1) as nat);
    }
}

/// Fields `0` that stand in `s` at `at`, followed by a byte that is no blank,
/// read as that many ignored fields.
proof fn lemma_zero_fields_read(s: Seq<u8>, at: int, count: nat)
    requires
        0 <= at,
        at + 2 * count < s.len(),
        s.subrange(at, at + 2 * count) == zero_fields(count),
        !is_space(s[at + 2 * count]),
    ensures
        fields_at(s, at, count) == Parsed::Done((), at + 2 * count),
    decreases count,
{
    if count > 0 {
        let fields = zero_fields(count);
        let rest = zero_fields((count - 1) as nat);
        lemma_zero_fields_len(count);
        lemma_zero_fields_len((count - 1) as nat);
        assert(fields[0] == ZERO && fields[1] == SPACE);
        assert(s[at] == s.subrange(at, at + 2 * count)[0]);
        assert(s[at + 1] == s.subrange(at, at + 2 * count)[1]);
        assert(s.subrange(at + 2, at + 2 * count) =~= rest) by {
            assert forall|i: int| 0 <= i < rest.len() implies s.subrange(at + 2, at + 2 * count)[i]
                == rest[i] by {
                assert(s[at + 2 + i] == s.subrange(at, at + 2 * count)[i + 2]);
                assert(fields[i + 2] == rest[i]);
            }
        }
        if count > 1 {
            let after = zero_fields((count - 2) as nat);
            assert(rest[0] == ZERO);
            assert(s[at + 2] == s.subrange(at + 2, at + 2 * count)[0]);
        }
        assert(!is_space(s[at + 2]));
        lemma_run_end_is(s, at, at + 1, ByteClass::NonSpace);
        lemma_run_end_is(s, at + 1, at + 2, ByteClass::Space);
        assert(field_at(s, at) == Parsed::Done((), at + 2));
        lemma_zero_fields_read(s, at + 2, (count - 1) as nat);
    }
}

/// A number field that stands in `s` at `at`, followed by a byte that is no
/// blank, reads as its number.
proof fn lemma_number_field_read(s: Seq<u8>, at: int, value: nat)
    requires
        0 <= at,
        value <= usize::MAX,
        at + number_field(value).len() < s.len(),
        s.subrange(at, at + number_field(value).len()) == number_field(value),
        !is_space(s[at + number_field(value).len()]),
    ensures
        number_at(s, at) == Parsed::Done(value as usize, at + number_field(value).len()),
{
    let digits = hex_digits(value);
    let field = number_field(value);
    let stop = at + digits.len();
    lemma_hex_digits(value);
    assert forall|i: int| at <= i < stop implies ByteClass::HexDigit.contains(#[trigger] s[i]) by {
        assert(s[i] == s.subrange(at, at + field.len())[i - at]);
        assert(field[i - at] == digits[i - at]);
    }
    assert(s[stop] == s.subrange(at, at + field.len())[digits.len() as int]);
    assert(field[digits.len() as int] == SPACE);
    lemma_run_end_is(s, at, stop, ByteClass::HexDigit);
    lemma_run_end_is(s, stop, stop + 1, ByteClass::Space);
    assert(s.subrange(at, stop) =~= digits) by {
        assert forall|i: int| 0 <= i < digits.len() implies s.subrange(at, stop)[i]
            == digits[i] by {
            assert(s[at + i] == s.subrange(at, at + field.len())[i]);
            assert(field[i] == digits[i]);
        }
    }
}

/// A number field starts with a hexadecimal digit, which is no blank.
proof fn lemma_number_fields_start(values: Seq<usize>)
    requires
        values.len() > 0,
    ensures
        number_fields(values).len() > 0,
        !is_space(number_fields(values)[0]),
{
    lemma_hex_digits(values.first() as nat);
    let digits = hex_digits(values.first() as nat);
    assert(is_hex_digit(digits[0]));
    assert(number_field(values.first() as nat)[0] == digits[0]);
    assert(number_fields(values)[0] == number_field(values.first() as nat)[0]);
}

/// Number fields that stand in `s` at `at`, followed by a byte that is no
/// blank, read as their numbers.
proof fn lemma_number_fields_read(s: Seq<u8>, at: int, values: Seq<usize>)
    requires
        0 <= at,
        at + number_fields(values).len() < s.len(),
        s.subrange(at, at + number_fields(values).len()) == number_fields(values),
        !is_space(s[at + number_fields(values).len()]),
    ensures
        numbers_at(s, at, values.len()) == Parsed::Done(values, at + number_fields(values).len()),
    decreases values.len(),
{
    if values.len() == 0 {
        assert(values =~= Seq::<usize>::empty());
    } else {
        let all = number_fields(values);
        let first = number_field(values.first() as nat);
        let rest = number_fields(values.drop_first());
        let next = at + first.len();
        assert(all == first + rest);
        assert(s.subrange(at, next) =~= first) by {
            assert forall|i: int| 0 <= i < first.len() implies s.subrange(at, next)[i]
                == first[i] by {
                assert(s[at + i] == s.subrange(at, at + all.len())[i]);
                assert(all[i] == first[i]);
            }
        }
        assert(s.subrange(next, next + rest.len()) =~= rest) by {
            assert forall|i: int| 0 <= i < rest.len() implies s.subrange(next, next + rest.len())[i]
                == rest[i] by {
                assert(s[next + i] == s.subrange(at, at + all.len())[first.len() + i]);
                assert(all[first.len() + i] == rest[i]);
            }
        }
        if values.len() > 1 {
            lemma_number_fields_start(values.drop_first());
            assert(s[next] == s.subrange(next, next + rest.len())[0]);
        }
        assert(!is_space(s[next]));
        lemma_number_field_read(s, at, values.first() as nat);
        lemma_number_fields_read(s, next, values.drop_first());
        assert(seq![values.first()] + values.drop_first() =~= values);
    }
}

/// The text that opens a scan data telegram opens no other telegram.
proof fn lemma_scan_data_tag_is_distinct(s: Seq<u8>)
    requires
        s.len() >= SCAN_DATA_TAG@.len(),
        s.subrange(0, SCAN_DATA_TAG@.len() as int) == SCAN_DATA_TAG@,
    ensures
        status_rule(s, StatusKind::DeviceState) is NoMatch,
        status_rule(s, StatusKind::SetAccessMode) is NoMatch,
        status_rule(s, StatusKind::StartMeasurement) is NoMatch,
        status_rule(s, StatusKind::StopMeasurement) is NoMatch,
        activation_rule(s) is NoMatch,
        status_rule(s, StatusKind::Run) is NoMatch,
        tag_at(s, 0, SCAN_DATA_TAG@) == Parsed::Done((), SCAN_DATA_TAG@.len() as int),
{
    let head = s.subrange(0, SCAN_DATA_TAG@.len() as int);
    assert(s[2] == head[2] && s[5] == head[5]);
    assert(lowercase(s[5]) != lowercase(DEVICE_STATE_TAG@[5]));
    assert(lowercase(s[2]) != lowercase(SET_ACCESS_MODE_TAG@[2]));
    assert(lowercase(s[2]) != lowercase(START_MEASUREMENT_TAG@[2]));
    assert(lowercase(s[2]) != lowercase(STOP_MEASUREMENT_TAG@[2]));
    assert(lowercase(s[2]) != lowercase(SET_ACTIVE_APPLICATIONS_ACK@[2]));
    assert(lowercase(s[2]) != lowercase(RUN_TAG@[2]));
    assert forall|i: int| 0 <= i < SCAN_DATA_TAG@.len() implies lowercase(s[i]) == lowercase(
        #[trigger] SCAN_DATA_TAG@[i],
    ) by {
        assert(s[i] == head[i]);
    }
}

/// Round trip: for every sequence of samples, the scan data telegram written
/// from it decodes to exactly these samples, in their order, and the
/// telegram is consumed whole.
pub proof fn lemma_scan_data_round_trip(values: Seq<usize>)
    requires
        values.len() <= usize::MAX,
    ensures
        spec_response(scan_data_telegram(values)) == Outcome::Matched(
            ResponseView::ScanData(values),
            scan_data_telegram(values).len() as int,
        ),
{
    let s = scan_data_telegram(values);
    let count = number_field(values.len());
    let samples = number_fields(values);
    let leading = SCAN_DATA_TAG@.len() as int;
    let marker = leading + 2 * LEADING_FIELDS;
    let following = marker + 2;
    let counted = following + 2 * FOLLOWING_FIELDS;
    let first = counted + count.len();
    let rest = first + samples.len();
    lemma_zero_fields_len(LEADING_FIELDS as nat);
    lemma_zero_fields_len(FOLLOWING_FIELDS as nat);
    lemma_hex_digits(values.len());
    assert(s.len() == rest + 2);
    assert(s[rest] == ZERO && s[rest + 1] == END);
    assert(s.subrange(0, leading) =~= SCAN_DATA_TAG@);
    assert(s.subrange(leading, marker) =~= zero_fields(LEADING_FIELDS as nat));
    assert(s.subrange(marker, following) =~= SCAN_DATA_MARKER@);
    assert(s.subrange(following, counted) =~= zero_fields(FOLLOWING_FIELDS as nat));
    assert(s.subrange(counted, first) =~= count);
    assert(s.subrange(first, rest) =~= samples);
    lemma_scan_data_tag_is_distinct(s);
    // the seventeen fields end where the marker's `1` stands
    assert(s[marker] == s.subrange(marker, following)[0]);
    lemma_zero_fields_read(s, leading, LEADING_FIELDS as nat);
    // the marker
    assert forall|i: int| 0 <= i < 2 implies lowercase(s[marker + i]) == lowercase(
        #[trigger] SCAN_DATA_MARKER@[i],
    ) by {
        assert(s[marker + i] == s.subrange(marker, following)[i]);
    }
    assert(tag_at(s, marker, SCAN_DATA_MARKER@) == Parsed::Done((), following));
    // the five fields end where the first digit of the count stands
    assert(s[counted] == s.subrange(counted, first)[0]);
    assert(count[0] == hex_digits(values.len())[0]);
    assert(is_hex_digit(hex_digits(values.len())[0]));
    lemma_zero_fields_read(s, following, FOLLOWING_FIELDS as nat);
    // the count ends where the first sample stands, or the last field
    if values.len() > 0 {
        lemma_number_fields_start(values);
        assert(s[first] == s.subrange(first, rest)[0]);
    }
    assert(!is_space(s[first]));
    lemma_number_field_read(s, counted, values.len());
    lemma_number_fields_read(s, first, values);
    // the last field and the end delimiter
    lemma_run_end_is(s, rest, rest + 1, ByteClass::NotEnd);
    assert(remainder_at(s, rest) == Parsed::Done((), rest + 2));
    assert(scan_remainder(s, rest, values) == Outcome::Matched(
        ResponseView::ScanData(values),
        rest + 2,
    ));
    assert(scan_samples(s, first, values.len()) == scan_remainder(s, rest, values));
    assert(scan_count(s, counted) == scan_samples(s, first, values.len()));
    assert(scan_following_fields(s, following) == scan_count(s, counted));
    assert(scan_marker(s, marker) == scan_following_fields(s, following));
    assert(scan_leading_fields(s, leading) == scan_marker(s, marker));
    assert(scan_data_rule(s) == scan_leading_fields(s, leading));
}

} // verus!
