//! Decoding does not look at letter case.
//!
//! Literal text is compared with the case of both sides folded, digits,
//! blanks and delimiters are no letters, and a hexadecimal digit is worth
//! the same in either case. So two buffers that differ only in the case of
//! their letters decode alike.

use crate::ascii::{
    lemma_run_end, lemma_run_end_is, lowercase, run_end, same_ignoring_case, ByteClass,
};
use crate::grammar::{
    field_at, fields_at, number_at, numbers_at, scan_count, scan_data_rule,
    scan_following_fields, scan_leading_fields, scan_marker, scan_remainder, scan_samples,
    spec_response, status_rule, tag_agrees, tag_at, Parsed, StatusKind, FOLLOWING_FIELDS,
    LEADING_FIELDS, SCAN_DATA_MARKER, SCAN_DATA_TAG, SET_ACTIVE_APPLICATIONS_ACK,
};
use crate::hex::lemma_hex_value_ignores_case;
use vstd::prelude::*;

verus! {

/// No class of the grammar tells an upper-case letter from its lower-case twin.
proof fn lemma_class_ignores_case(class: ByteClass, a: u8, b: u8)
    requires
        lowercase(a) == lowercase(b),
    ensures
        class.contains(a) == class.contains(b),
{
}

/// Runs end at the same index in both buffers.
pub proof fn lemma_run_end_ignores_case(a: Seq<u8>, b: Seq<u8>, from: int, class: ByteClass)
    requires
        same_ignoring_case(a, b),
        0 <= from <= a.len(),
    ensures
        run_end(a, from, class) == run_end(b, from, class),
{
    let end = run_end(a, from, class);
    lemma_run_end(a, from, class);
    assert forall|i: int| from <= i < end implies class.contains(#[trigger] b[i]) by {
        assert(class.contains(a[i]));
        lemma_class_ignores_case(class, a[i], b[i]);
    }
    if end < a.len() {
        assert(!class.contains(a[end]));
        lemma_class_ignores_case(class, a[end], b[end]);
    }
    lemma_run_end_is(b, from, end, class);
}

/// Literal text reads alike in both buffers.
proof fn lemma_tag_ignores_case(a: Seq<u8>, b: Seq<u8>, at: int, tag: Seq<u8>)
    requires
        same_ignoring_case(a, b),
        0 <= at <= a.len(),
    ensures
        tag_at(a, at, tag) == tag_at(b, at, tag),
{
    let present = if a.len() - at < tag.len() {
        a.len() - at
    } else {
        tag.len() as int
    };
    if tag_agrees(a, at, tag, present) {
        assert forall|i: int| 0 <= i < present implies lowercase(b[at + i]) == lowercase(
            #[trigger] tag[i],
        ) by {
            assert(lowercase(a[at + i]) == lowercase(b[at + i]));
        }
    }
    if tag_agrees(b, at, tag, present) {
        assert forall|i: int| 0 <= i < present implies lowercase(a[at + i]) == lowercase(
            #[trigger] tag[i],
        ) by {
            assert(lowercase(a[at + i]) == lowercase(b[at + i]));
        }
    }
}

/// A status telegram reads alike in both buffers.
proof fn lemma_status_ignores_case(a: Seq<u8>, b: Seq<u8>, kind: StatusKind)
    requires
        same_ignoring_case(a, b),
    ensures
        status_rule(a, kind) == status_rule(b, kind),
{
    lemma_tag_ignores_case(a, b, 0, kind.tag());
    if let Parsed::Done(_, digit) = tag_at(a, 0, kind.tag()) {
        if digit < a.len() {
            assert(lowercase(a[digit]) == lowercase(b[digit]));
            if digit + 1 < a.len() {
                assert(lowercase(a[digit + 1]) == lowercase(b[digit + 1]));
            }
        }
    }
}

/// An ignored field reads alike in both buffers.
proof fn lemma_field_ignores_case(a: Seq<u8>, b: Seq<u8>, at: int)
    requires
        same_ignoring_case(a, b),
        0 <= at <= a.len(),
    ensures
        field_at(a, at) == field_at(b, at),
        field_at(a, at) matches Parsed::Done(_, end) ==> at <= end <= a.len(),
{
    lemma_run_end(a, at, ByteClass::NonSpace);
    lemma_run_end_ignores_case(a, b, at, ByteClass::NonSpace);
    let stop = run_end(a, at, ByteClass::NonSpace);
    if stop < a.len() {
        lemma_run_end(a, stop, ByteClass::Space);
        lemma_run_end_ignores_case(a, b, stop, ByteClass::Space);
    }
}

/// Ignored fields in a row read alike in both buffers.
proof fn lemma_fields_ignore_case(a: Seq<u8>, b: Seq<u8>, at: int, count: nat)
    requires
        same_ignoring_case(a, b),
        0 <= at <= a.len(),
    ensures
        fields_at(a, at, count) == fields_at(b, at, count),
        fields_at(a, at, count) matches Parsed::Done(_, end) ==> at <= end <= a.len(),
    decreases count,
{
    if count > 0 {
        lemma_field_ignores_case(a, b, at);
        if let Parsed::Done(_, next) = field_at(a, at) {
            lemma_fields_ignore_case(a, b, next, (count - 1) as nat);
        }
    }
}

/// A number reads alike in both buffers.
proof fn lemma_number_ignores_case(a: Seq<u8>, b: Seq<u8>, at: int)
    requires
        same_ignoring_case(a, b),
        0 <= at <= a.len(),
    ensures
        number_at(a, at) == number_at(b, at),
        number_at(a, at) matches Parsed::Done(_, end) ==> at <= end <= a.len(),
{
    lemma_run_end(a, at, ByteClass::HexDigit);
    lemma_run_end_ignores_case(a, b, at, ByteClass::HexDigit);
    let stop = run_end(a, at, ByteClass::HexDigit);
    if stop < a.len() {
        assert(lowercase(a[stop]) == lowercase(b[stop]));
        let digits_a = a.subrange(at, stop);
        let digits_b = b.subrange(at, stop);
        assert forall|i: int| 0 <= i < digits_a.len() implies lowercase(#[trigger] digits_a[i])
            == lowercase(digits_b[i]) by {
            assert(lowercase(a[at + i]) == lowercase(b[at + i]));
        }
        lemma_hex_value_ignores_case(digits_a, digits_b);
        lemma_run_end(a, stop, ByteClass::Space);
        lemma_run_end_ignores_case(a, b, stop, ByteClass::Space);
    }
}

/// Numbers in a row read alike in both buffers.
proof fn lemma_numbers_ignore_case(a: Seq<u8>, b: Seq<u8>, at: int, count: nat)
    requires
        same_ignoring_case(a, b),
        0 <= at <= a.len(),
    ensures
        numbers_at(a, at, count) == numbers_at(b, at, count),
        numbers_at(a, at, count) matches Parsed::Done(_, end) ==> at <= end <= a.len(),
    decreases count,
{
    if count > 0 {
        lemma_number_ignores_case(a, b, at);
        if let Parsed::Done(_, next) = number_at(a, at) {
            lemma_numbers_ignore_case(a, b, next, (count - 1) as nat);
        }
    }
}

/// A scan data telegram reads alike in both buffers.
proof fn lemma_scan_data_ignores_case(a: Seq<u8>, b: Seq<u8>)
    requires
        same_ignoring_case(a, b),
    ensures
        scan_data_rule(a) == scan_data_rule(b),
{
    lemma_tag_ignores_case(a, b, 0, SCAN_DATA_TAG@);
    if let Parsed::Done(_, leading) = tag_at(a, 0, SCAN_DATA_TAG@) {
        lemma_fields_ignore_case(a, b, leading, LEADING_FIELDS as nat);
        if let Parsed::Done(_, marker) = fields_at(a, leading, LEADING_FIELDS as nat) {
            lemma_tag_ignores_case(a, b, marker, SCAN_DATA_MARKER@);
            if let Parsed::Done(_, following) = tag_at(a, marker, SCAN_DATA_MARKER@) {
                lemma_fields_ignore_case(a, b, following, FOLLOWING_FIELDS as nat);
                if let Parsed::Done(_, counted) = fields_at(
                    a,
                    following,
                    FOLLOWING_FIELDS as nat,
                ) {
                    lemma_number_ignores_case(a, b, counted);
                    if let Parsed::Done(count, first) = number_at(a, counted) {
                        lemma_numbers_ignore_case(a, b, first, count as nat);
                        if let Parsed::Done(values, rest) = numbers_at(a, first, count as nat) {
                            lemma_run_end_ignores_case(a, b, rest, ByteClass::NotEnd);
                            assert(scan_remainder(a, rest, values) == scan_remainder(
                                b,
                                rest,
                                values,
                            ));
                            assert(scan_samples(a, first, count as nat) == scan_samples(
                                b,
                                first,
                                count as nat,
                            ));
                        }
                        assert(scan_count(a, counted) == scan_count(b, counted));
                    }
                    assert(scan_following_fields(a, following) == scan_following_fields(
                        b,
                        following,
                    ));
                }
                assert(scan_marker(a, marker) == scan_marker(b, marker));
            }
            assert(scan_leading_fields(a, leading) == scan_leading_fields(b, leading));
        }
    }
}

/// Two buffers that differ at most in the case of their ASCII letters decode
/// to the same outcome. In particular the letters of a telegram's literal
/// text may come in any case: the response and the length stay what they are.
pub proof fn lemma_response_ignores_case(a: Seq<u8>, b: Seq<u8>)
    requires
        same_ignoring_case(a, b),
    ensures
        spec_response(a) == spec_response(b),
{
    lemma_status_ignores_case(a, b, StatusKind::DeviceState);
    lemma_status_ignores_case(a, b, StatusKind::SetAccessMode);
    lemma_status_ignores_case(a, b, StatusKind::StartMeasurement);
    lemma_status_ignores_case(a, b, StatusKind::StopMeasurement);
    lemma_tag_ignores_case(a, b, 0, SET_ACTIVE_APPLICATIONS_ACK@);
    lemma_status_ignores_case(a, b, StatusKind::Run);
    lemma_scan_data_ignores_case(a, b);
}

} // verus!
