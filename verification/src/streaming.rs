//! How decoding behaves while a buffer grows.
//!
//! A decision, once taken, stands: bytes appended to a buffer never change a
//! match nor undo a refusal. So a telegram can arrive in any number of
//! pieces, and bytes that follow it in the buffer are left alone.

use crate::ascii::{lemma_run_end, lemma_run_end_is, lowercase, run_end, ByteClass, END, START};
use crate::grammar::{
    activation_rule, field_at, fields_at, number_at, numbers_at, remainder_at, scan_count,
    scan_data_rule, scan_following_fields, scan_leading_fields, scan_marker, scan_remainder,
    scan_samples, spec_response, status_rule, tag_at, Outcome, Parsed, StatusKind,
    FOLLOWING_FIELDS, LEADING_FIELDS, SCAN_DATA_MARKER, SCAN_DATA_TAG,
    SET_ACTIVE_APPLICATIONS_ACK,
};
use vstd::prelude::*;

verus! {

/// A run that ends inside `s` ends at the same place when bytes are appended;
/// a run that reaches the end of `s` still covers all of `s`.
pub proof fn lemma_run_end_grows(s: Seq<u8>, more: Seq<u8>, from: int, class: ByteClass)
    requires
        0 <= from <= s.len(),
    ensures
        run_end(s, from, class) < s.len() ==> run_end(s + more, from, class) == run_end(
            s,
            from,
            class,
        ),
        run_end(s, from, class) >= s.len() ==> run_end(s + more, from, class) >= s.len(),
{
    let end = run_end(s, from, class);
    let longer = s + more;
    lemma_run_end(s, from, class);
    if end < s.len() {
        assert forall|i: int| from <= i < end implies class.contains(#[trigger] longer[i]) by {
            assert(longer[i] == s[i]);
        }
        assert(longer[end] == s[end]);
        lemma_run_end_is(longer, from, end, class);
    } else {
        lemma_run_end(longer, from, class);
        let grown = run_end(longer, from, class);
        if grown < s.len() {
            assert(longer[grown] == s[grown]);
            assert(class.contains(s[grown]));
        }
    }
}

/// Literal text that was matched or refused stays so when bytes are appended.
proof fn lemma_tag_grows(s: Seq<u8>, more: Seq<u8>, at: int, tag: Seq<u8>)
    requires
        0 <= at <= s.len(),
    ensures
        tag_at(s, at, tag) matches Parsed::Done(_, end) ==> at <= end <= s.len() && tag_at(
            s + more,
            at,
            tag,
        ) == tag_at(s, at, tag),
        tag_at(s, at, tag) is Fail ==> tag_at(s + more, at, tag) is Fail,
        at == s.len() && tag.len() > 0 ==> tag_at(s, at, tag) is Incomplete,
{
    let longer = s + more;
    let present = if s.len() - at < tag.len() {
        s.len() - at
    } else {
        tag.len() as int
    };
    let grown = if longer.len() - at < tag.len() {
        longer.len() - at
    } else {
        tag.len() as int
    };
    assert(present <= grown);
    match tag_at(s, at, tag) {
        Parsed::Done(_, end) => {
            assert forall|i: int| 0 <= i < grown implies lowercase(longer[at + i])
                == lowercase(#[trigger] tag[i]) by {
                assert(longer[at + i] == s[at + i]);
            }
        },
        Parsed::Fail => {
            let i = choose|i: int|
                0 <= i < present && lowercase(s[at + i]) != lowercase(
                    #[trigger] tag[i],
                );
            assert(longer[at + i] == s[at + i]);
        },
        Parsed::Incomplete => {},
    }
}

/// A status telegram that was matched or refused stays so when bytes are appended.
proof fn lemma_status_grows(s: Seq<u8>, more: Seq<u8>, kind: StatusKind)
    ensures
        status_rule(s, kind) matches Outcome::Matched(_, end) ==> 0 < end <= s.len()
            && status_rule(s + more, kind) == status_rule(s, kind),
        status_rule(s, kind) is NoMatch ==> status_rule(s + more, kind) is NoMatch,
{
    let longer = s + more;
    lemma_tag_grows(s, more, 0, kind.tag());
    if let Parsed::Done(_, digit) = tag_at(s, 0, kind.tag()) {
        if digit < s.len() {
            assert(longer[digit] == s[digit]);
            if digit + 1 < s.len() {
                assert(longer[digit + 1] == s[digit + 1]);
            }
        }
    }
}

/// The activation acknowledgement, matched or refused, stays so when bytes are appended.
proof fn lemma_activation_grows(s: Seq<u8>, more: Seq<u8>)
    ensures
        activation_rule(s) matches Outcome::Matched(_, end) ==> 0 < end <= s.len()
            && activation_rule(s + more) == activation_rule(s),
        activation_rule(s) is NoMatch ==> activation_rule(s + more) is NoMatch,
{
    lemma_tag_grows(s, more, 0, SET_ACTIVE_APPLICATIONS_ACK@);
}

/// An ignored field that ends inside `s`, or is refused, stays so when bytes
/// are appended. At the end of `s` a field is incomplete.
proof fn lemma_field_grows(s: Seq<u8>, more: Seq<u8>, at: int)
    requires
        0 <= at <= s.len(),
    ensures
        field_at(s, at) matches Parsed::Done(_, end) ==> at < end <= s.len() && (end < s.len()
            ==> field_at(s + more, at) == field_at(s, at)),
        field_at(s, at) is Fail ==> field_at(s + more, at) is Fail,
        at == s.len() ==> field_at(s, at) is Incomplete,
{
    let stop = run_end(s, at, ByteClass::NonSpace);
    lemma_run_end(s, at, ByteClass::NonSpace);
    lemma_run_end_grows(s, more, at, ByteClass::NonSpace);
    if stop < s.len() {
        lemma_run_end(s, stop, ByteClass::Space);
        lemma_run_end_grows(s, more, stop, ByteClass::Space);
    }
}

/// Ignored fields in a row: the same, by induction on their number.
proof fn lemma_fields_grow(s: Seq<u8>, more: Seq<u8>, at: int, count: nat)
    requires
        0 <= at <= s.len(),
    ensures
        fields_at(s, at, count) matches Parsed::Done(_, end) ==> at <= end <= s.len() && (end
            < s.len() ==> fields_at(s + more, at, count) == fields_at(s, at, count)),
        fields_at(s, at, count) is Fail ==> fields_at(s + more, at, count) is Fail,
        at == s.len() && count > 0 ==> fields_at(s, at, count) is Incomplete,
    decreases count,
{
    if count > 0 {
        lemma_field_grows(s, more, at);
        if let Parsed::Done(_, next) = field_at(s, at) {
            lemma_fields_grow(s, more, next, (count - 1) as nat);
        }
    }
}

/// A number that ends inside `s`, or is refused, stays so when bytes are
/// appended. At the end of `s` a number is incomplete.
proof fn lemma_number_grows(s: Seq<u8>, more: Seq<u8>, at: int)
    requires
        0 <= at <= s.len(),
    ensures
        number_at(s, at) matches Parsed::Done(_, end) ==> at < end <= s.len() && (end < s.len()
            ==> number_at(s + more, at) == number_at(s, at)),
        number_at(s, at) is Fail ==> number_at(s + more, at) is Fail,
        at == s.len() ==> number_at(s, at) is Incomplete,
{
    let longer = s + more;
    let stop = run_end(s, at, ByteClass::HexDigit);
    lemma_run_end(s, at, ByteClass::HexDigit);
    lemma_run_end_grows(s, more, at, ByteClass::HexDigit);
    if stop < s.len() {
        assert(longer[stop] == s[stop]);
        assert(longer.subrange(at, stop) =~= s.subrange(at, stop));
        lemma_run_end(s, stop, ByteClass::Space);
        lemma_run_end_grows(s, more, stop, ByteClass::Space);
    }
}

/// Numbers in a row: the same, by induction on their number.
proof fn lemma_numbers_grow(s: Seq<u8>, more: Seq<u8>, at: int, count: nat)
    requires
        0 <= at <= s.len(),
    ensures
        numbers_at(s, at, count) matches Parsed::Done(_, end) ==> at <= end <= s.len() && (end
            < s.len() ==> numbers_at(s + more, at, count) == numbers_at(s, at, count)),
        numbers_at(s, at, count) is Fail ==> numbers_at(s + more, at, count) is Fail,
        at == s.len() && count > 0 ==> numbers_at(s, at, count) is Incomplete,
    decreases count,
{
    if count > 0 {
        lemma_number_grows(s, more, at);
        if let Parsed::Done(_, next) = number_at(s, at) {
            lemma_numbers_grow(s, more, next, (count - 1) as nat);
        }
    }
}

/// The end of a telegram, matched or refused, stays so when bytes are
/// appended. At the end of `s` it is incomplete.
proof fn lemma_remainder_grows(s: Seq<u8>, more: Seq<u8>, at: int)
    requires
        0 <= at <= s.len(),
    ensures
        remainder_at(s, at) matches Parsed::Done(_, end) ==> at < end <= s.len()
            && remainder_at(s + more, at) == remainder_at(s, at),
        remainder_at(s, at) is Fail ==> remainder_at(s + more, at) is Fail,
        at == s.len() ==> remainder_at(s, at) is Incomplete,
{
    lemma_run_end(s, at, ByteClass::NotEnd);
    lemma_run_end_grows(s, more, at, ByteClass::NotEnd);
}

/// What holds of every stage of the scan data rule when bytes are appended:
/// a match stays, a refusal stays, and at the end of `s` nothing is decided.
spec fn grows(before: Outcome, after: Outcome, at: int, len: int) -> bool {
    &&& before matches Outcome::Matched(_, end) ==> at < end <= len && after == before
    &&& before is NoMatch ==> after is NoMatch
    &&& at == len ==> before is Incomplete
}

/// The remainder stage grows.
proof fn lemma_scan_remainder_grows(s: Seq<u8>, more: Seq<u8>, at: int, values: Seq<usize>)
    requires
        0 <= at <= s.len(),
    ensures
        grows(
            scan_remainder(s, at, values),
            scan_remainder(s + more, at, values),
            at,
            s.len() as int,
        ),
{
    lemma_remainder_grows(s, more, at);
}

/// The samples stage grows.
proof fn lemma_scan_samples_grows(s: Seq<u8>, more: Seq<u8>, at: int, count: nat)
    requires
        0 <= at <= s.len(),
    ensures
        grows(scan_samples(s, at, count), scan_samples(s + more, at, count), at, s.len() as int),
{
    lemma_numbers_grow(s, more, at, count);
    if let Parsed::Done(values, next) = numbers_at(s, at, count) {
        lemma_scan_remainder_grows(s, more, next, values);
    }
}

/// The count stage grows.
proof fn lemma_scan_count_grows(s: Seq<u8>, more: Seq<u8>, at: int)
    requires
        0 <= at <= s.len(),
    ensures
        grows(scan_count(s, at), scan_count(s + more, at), at, s.len() as int),
{
    lemma_number_grows(s, more, at);
    if let Parsed::Done(count, next) = number_at(s, at) {
        lemma_scan_samples_grows(s, more, next, count as nat);
    }
}

/// The stage of the five ignored fields grows.
proof fn lemma_scan_following_fields_grows(s: Seq<u8>, more: Seq<u8>, at: int)
    requires
        0 <= at <= s.len(),
    ensures
        grows(
            scan_following_fields(s, at),
            scan_following_fields(s + more, at),
            at,
            s.len() as int,
        ),
{
    lemma_fields_grow(s, more, at, FOLLOWING_FIELDS as nat);
    if let Parsed::Done(_, next) = fields_at(s, at, FOLLOWING_FIELDS as nat) {
        lemma_scan_count_grows(s, more, next);
    }
}

/// The marker stage grows.
proof fn lemma_scan_marker_grows(s: Seq<u8>, more: Seq<u8>, at: int)
    requires
        0 <= at <= s.len(),
    ensures
        grows(scan_marker(s, at), scan_marker(s + more, at), at, s.len() as int),
{
    lemma_tag_grows(s, more, at, SCAN_DATA_MARKER@);
    if let Parsed::Done(_, next) = tag_at(s, at, SCAN_DATA_MARKER@) {
        lemma_scan_following_fields_grows(s, more, next);
    }
}

/// The stage of the seventeen ignored fields grows.
proof fn lemma_scan_leading_fields_grows(s: Seq<u8>, more: Seq<u8>, at: int)
    requires
        0 <= at <= s.len(),
    ensures
        grows(
            scan_leading_fields(s, at),
            scan_leading_fields(s + more, at),
            at,
            s.len() as int,
        ),
{
    lemma_fields_grow(s, more, at, LEADING_FIELDS as nat);
    if let Parsed::Done(_, next) = fields_at(s, at, LEADING_FIELDS as nat) {
        lemma_scan_marker_grows(s, more, next);
    }
}

/// A scan data telegram that was matched or refused stays so when bytes are appended.
proof fn lemma_scan_data_grows(s: Seq<u8>, more: Seq<u8>)
    ensures
        scan_data_rule(s) matches Outcome::Matched(_, end) ==> 0 < end <= s.len()
            && scan_data_rule(s + more) == scan_data_rule(s),
        scan_data_rule(s) is NoMatch ==> scan_data_rule(s + more) is NoMatch,
{
    lemma_tag_grows(s, more, 0, SCAN_DATA_TAG@);
    if let Parsed::Done(_, next) = tag_at(s, 0, SCAN_DATA_TAG@) {
        lemma_scan_leading_fields_grows(s, more, next);
    }
}

/// Appending bytes to a buffer changes neither a match nor a refusal: a
/// telegram that was decoded is decoded again, to the same response and the
/// same length, and a buffer that was refused is refused again.
pub proof fn lemma_response_grows(s: Seq<u8>, more: Seq<u8>)
    ensures
        spec_response(s) matches Outcome::Matched(_, end) ==> 0 < end <= s.len()
            && spec_response(s + more) == spec_response(s),
        spec_response(s) is NoMatch ==> spec_response(s + more) is NoMatch,
{
    lemma_status_grows(s, more, StatusKind::DeviceState);
    lemma_status_grows(s, more, StatusKind::SetAccessMode);
    lemma_status_grows(s, more, StatusKind::StartMeasurement);
    lemma_status_grows(s, more, StatusKind::StopMeasurement);
    lemma_activation_grows(s, more);
    lemma_status_grows(s, more, StatusKind::Run);
    lemma_scan_data_grows(s, more);
}

/// What is left of a buffer once the telegram at its start, if there is one,
/// is taken off.
pub open spec fn leftover(buffer: Seq<u8>) -> Seq<u8> {
    match spec_response(buffer) {
        Outcome::Matched(_, end) => buffer.skip(end),
        Outcome::Incomplete => buffer,
        Outcome::NoMatch => buffer,
    }
}

/// Bytes that follow a telegram in the buffer take no part in decoding it:
/// the telegram decodes to the same response and the same length, so exactly
/// `rest` is left once the telegram is taken off the buffer.
pub proof fn lemma_leftover_preserved(telegram: Seq<u8>, rest: Seq<u8>)
    requires
        spec_response(telegram) matches Outcome::Matched(_, end) && end == telegram.len(),
    ensures
        spec_response(telegram + rest) == spec_response(telegram),
        leftover(telegram + rest) == rest,
{
    lemma_response_grows(telegram, rest);
    assert((telegram + rest).skip(telegram.len() as int) =~= rest);
}

/// However a telegram is cut in two, the first piece alone is incomplete:
/// decoding waits and keeps the piece, and with the second piece appended it
/// sees the whole telegram.
pub proof fn lemma_incremental_feed(telegram: Seq<u8>, cut: int)
    requires
        spec_response(telegram) matches Outcome::Matched(_, end) && end == telegram.len(),
        0 <= cut < telegram.len(),
    ensures
        spec_response(telegram.take(cut)) is Incomplete,
        leftover(telegram.take(cut)) == telegram.take(cut),
        spec_response(leftover(telegram.take(cut)) + telegram.skip(cut)) == spec_response(
            telegram,
        ),
{
    assert(telegram.take(cut) + telegram.skip(cut) =~= telegram);
    lemma_response_grows(telegram.take(cut), telegram.skip(cut));
}

/// The pieces of a buffer, put together in their order.
pub open spec fn joined(pieces: Seq<Seq<u8>>) -> Seq<u8>
    decreases pieces.len(),
{
    if pieces.len() == 0 {
        Seq::empty()
    } else {
        joined(pieces.drop_last()) + pieces.last()
    }
}

/// The buffer after `pieces` were fed to it one by one: each is appended,
/// and the telegram at the start of the buffer, if there is one, is taken off.
pub open spec fn fed(unparsed: Seq<u8>, pieces: Seq<Seq<u8>>) -> Seq<u8>
    decreases pieces.len(),
{
    if pieces.len() == 0 {
        unparsed
    } else {
        leftover(fed(unparsed, pieces.drop_last()) + pieces.last())
    }
}

/// Feeding `pieces` one by one left decoding incomplete every time.
pub open spec fn all_incomplete(unparsed: Seq<u8>, pieces: Seq<Seq<u8>>) -> bool
    decreases pieces.len(),
{
    pieces.len() == 0 || (all_incomplete(unparsed, pieces.drop_last()) && spec_response(
        fed(unparsed, pieces.drop_last()) + pieces.last(),
    ) is Incomplete)
}

/// Pieces that together are a proper prefix of a telegram all leave decoding
/// incomplete, and all of them stay in the buffer.
proof fn lemma_pieces_wait(telegram: Seq<u8>, pieces: Seq<Seq<u8>>)
    requires
        spec_response(telegram) matches Outcome::Matched(_, end) && end == telegram.len(),
        joined(pieces).len() < telegram.len(),
        joined(pieces) == telegram.take(joined(pieces).len() as int),
    ensures
        all_incomplete(Seq::empty(), pieces),
        fed(Seq::empty(), pieces) == joined(pieces),
    decreases pieces.len(),
{
    if pieces.len() > 0 {
        let before = joined(pieces.drop_last());
        assert(before =~= telegram.take(before.len() as int)) by {
            assert forall|i: int| 0 <= i < before.len() implies before[i] == telegram[i] by {
                assert(joined(pieces)[i] == before[i]);
                assert(telegram.take(joined(pieces).len() as int)[i] == telegram[i]);
            }
        }
        lemma_pieces_wait(telegram, pieces.drop_last());
        lemma_incremental_feed(telegram, joined(pieces).len() as int);
    }
}

/// Incremental feed: a telegram that arrives in any number of pieces, cut at
/// any positions, decodes as it does when it arrives whole. Every piece
/// before the last leaves decoding incomplete and stays in the buffer; the
/// last piece completes the telegram, which decodes to the same response and
/// leaves the buffer empty.
pub proof fn lemma_fed_in_pieces(telegram: Seq<u8>, pieces: Seq<Seq<u8>>, last: Seq<u8>)
    requires
        spec_response(telegram) matches Outcome::Matched(_, end) && end == telegram.len(),
        joined(pieces) + last == telegram,
        last.len() > 0,
    ensures
        all_incomplete(Seq::empty(), pieces),
        spec_response(fed(Seq::empty(), pieces) + last) == spec_response(telegram),
        fed(Seq::empty(), pieces.push(last)) == Seq::<u8>::empty(),
{
    assert(joined(pieces) =~= telegram.take(joined(pieces).len() as int));
    lemma_pieces_wait(telegram, pieces);
    assert(pieces.push(last).drop_last() =~= pieces);
    assert(telegram.skip(telegram.len() as int) =~= Seq::<u8>::empty());
}

/// Every telegram that decodes starts with the start delimiter and ends with
/// the end delimiter: the byte before the leftover is `<ETX>`.
pub proof fn lemma_telegram_is_framed(s: Seq<u8>)
    ensures
        spec_response(s) matches Outcome::Matched(_, end) ==> 1 < end <= s.len() && s[0] == START
            && s[end - 1] == END,
{
    lemma_status_is_framed(s, StatusKind::DeviceState);
    lemma_status_is_framed(s, StatusKind::SetAccessMode);
    lemma_status_is_framed(s, StatusKind::StartMeasurement);
    lemma_status_is_framed(s, StatusKind::StopMeasurement);
    lemma_status_is_framed(s, StatusKind::Run);
    if let Parsed::Done(_, end) = tag_at(s, 0, SET_ACTIVE_APPLICATIONS_ACK@) {
        assert(lowercase(s[0]) == lowercase(SET_ACTIVE_APPLICATIONS_ACK@[0]));
        assert(lowercase(s[26]) == lowercase(SET_ACTIVE_APPLICATIONS_ACK@[26]));
    }
    lemma_scan_data_is_framed(s);
}

/// A status telegram is framed.
proof fn lemma_status_is_framed(s: Seq<u8>, kind: StatusKind)
    ensures
        status_rule(s, kind) matches Outcome::Matched(_, end) ==> 1 < end <= s.len() && s[0]
            == START && s[end - 1] == END,
{
    if let Parsed::Done(_, digit) = tag_at(s, 0, kind.tag()) {
        assert(lowercase(s[0]) == lowercase(kind.tag()[0]));
    }
}

/// A scan data telegram is framed.
proof fn lemma_scan_data_is_framed(s: Seq<u8>)
    ensures
        scan_data_rule(s) matches Outcome::Matched(_, end) ==> 1 < end <= s.len() && s[0]
            == START && s[end - 1] == END,
{
    let none = Seq::<u8>::empty();
    assert(s + none =~= s);
    if let Parsed::Done(_, leading) = tag_at(s, 0, SCAN_DATA_TAG@) {
        assert(lowercase(s[0]) == lowercase(SCAN_DATA_TAG@[0]));
        lemma_fields_grow(s, none, leading, LEADING_FIELDS as nat);
        if let Parsed::Done(_, marker) = fields_at(s, leading, LEADING_FIELDS as nat) {
            lemma_tag_grows(s, none, marker, SCAN_DATA_MARKER@);
            if let Parsed::Done(_, following) = tag_at(s, marker, SCAN_DATA_MARKER@) {
                lemma_fields_grow(s, none, following, FOLLOWING_FIELDS as nat);
                if let Parsed::Done(_, counted) = fields_at(
                    s,
                    following,
                    FOLLOWING_FIELDS as nat,
                ) {
                    lemma_number_grows(s, none, counted);
                    if let Parsed::Done(count, first) = number_at(s, counted) {
                        lemma_numbers_grow(s, none, first, count as nat);
                        if let Parsed::Done(_, rest) = numbers_at(s, first, count as nat) {
                            lemma_run_end(s, rest, ByteClass::NotEnd);
                        }
                    }
                }
            }
        }
    }
}

} // verus!
