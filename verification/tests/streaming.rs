use lidar::codec::TelegramCodec;
use lidar::decode::{response, Decoded};
use lidar::encode::encode_scan_data;
use lidar::telegram::{DeviceState, Response, SetAccessModeResult};

#[test]
fn whole_telegram_empties_the_buffer() {
    let mut codec = TelegramCodec::new();
    assert_eq!(
        codec.feed(b"\x02sRA SCdevicestate 1\x03"),
        Decoded::Matched(Response::DeviceState(DeviceState::Ready), 21)
    );
    assert!(codec.unparsed().is_empty());
}

#[test]
fn telegram_in_two_pieces() {
    let mut codec = TelegramCodec::new();
    assert_eq!(codec.feed(b"\x02sRA SCdev"), Decoded::Incomplete);
    assert_eq!(codec.unparsed(), b"\x02sRA SCdev");
    assert_eq!(codec.unparsed().len(), 10);
    assert_eq!(
        codec.feed(b"icestate 1\x03"),
        Decoded::Matched(Response::DeviceState(DeviceState::Ready), 21)
    );
    assert!(codec.unparsed().is_empty());
}

#[test]
fn telegram_cut_after_nine_bytes() {
    let mut codec = TelegramCodec::new();
    assert_eq!(codec.feed(b"\x02sRA SCde"), Decoded::Incomplete);
    assert_eq!(codec.unparsed().len(), 9);
    assert_eq!(
        codec.feed(b"vicestate 1\x03"),
        Decoded::Matched(Response::DeviceState(DeviceState::Ready), 21)
    );
    assert!(codec.unparsed().is_empty());
}

#[test]
fn telegram_cut_anywhere() {
    let telegram = encode_scan_data(&[1, 2, 3, 0xffff, 0]);
    let whole = response(&telegram);
    for cut in 0..telegram.len() {
        let mut codec = TelegramCodec::new();
        assert_eq!(codec.feed(&telegram[..cut]), Decoded::Incomplete);
        assert_eq!(codec.unparsed(), &telegram[..cut]);
        assert_eq!(codec.feed(&telegram[cut..]), whole);
        assert!(codec.unparsed().is_empty());
    }
}

#[test]
fn telegram_byte_by_byte() {
    let telegram = encode_scan_data(&[10, 20, 30]);
    let mut codec = TelegramCodec::new();
    for index in 0..telegram.len() - 1 {
        assert_eq!(codec.feed(&telegram[index..index + 1]), Decoded::Incomplete);
        assert_eq!(codec.unparsed().len(), index + 1);
    }
    assert_eq!(
        codec.feed(&telegram[telegram.len() - 1..]),
        Decoded::Matched(Response::ScanData { values: vec![10, 20, 30] }, telegram.len())
    );
    assert!(codec.unparsed().is_empty());
}

#[test]
fn empty_read_changes_nothing() {
    let mut codec = TelegramCodec::new();
    assert_eq!(codec.feed(b""), Decoded::Incomplete);
    assert_eq!(codec.feed(b"\x02sAN"), Decoded::Incomplete);
    assert_eq!(codec.feed(b""), Decoded::Incomplete);
    assert_eq!(codec.unparsed(), b"\x02sAN");
}

#[test]
fn start_of_the_next_telegram_is_kept() {
    let first = b"\x02sAN SetAccessMode 1\x03";
    let second = b"\x02sRA SCdevicestate 0\x03";
    for kept in 0..second.len() {
        let mut buffer = first.to_vec();
        buffer.extend_from_slice(&second[..kept]);
        let mut codec = TelegramCodec::new();
        assert_eq!(
            codec.feed(&buffer),
            Decoded::Matched(Response::SetAccessMode(SetAccessModeResult::Success), 21)
        );
        assert_eq!(codec.unparsed(), &second[..kept]);
        assert_eq!(
            codec.feed(&second[kept..]),
            Decoded::Matched(Response::DeviceState(DeviceState::Busy), 21)
        );
        assert!(codec.unparsed().is_empty());
    }
}

#[test]
fn refused_bytes_stay_in_the_buffer() {
    let mut codec = TelegramCodec::new();
    assert_eq!(codec.feed(b"\x02sRA "), Decoded::Incomplete);
    assert_eq!(codec.feed(b"nonsense"), Decoded::NoMatch);
    assert_eq!(codec.unparsed(), b"\x02sRA nonsense");
    assert_eq!(codec.feed(b"\x03"), Decoded::NoMatch);
}
