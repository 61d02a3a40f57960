use lidar::decode::{response, Decoded};
use lidar::encode::encode_scan_data;
use lidar::telegram::{Application, ApplicationActivation, Request, Response};

#[test]
fn device_state_query_bytes() {
    assert_eq!(Request::DeviceState.encode(), b"\x02sRN SCdevicestate\x03".to_vec());
}

#[test]
fn set_access_mode_bytes() {
    assert_eq!(
        Request::SetAccessMode.encode(),
        b"\x02sMN SetAccessMode 03 F4724744\x03".to_vec()
    );
}

#[test]
fn start_measurement_bytes() {
    assert_eq!(Request::StartMeasurement.encode(), b"\x02sMN LMCstartmeas\x03".to_vec());
}

#[test]
fn stop_measurement_bytes() {
    assert_eq!(Request::StopMeasurement.encode(), b"\x02sMN LMCstopmeas\x03".to_vec());
}

#[test]
fn run_bytes() {
    assert_eq!(Request::Run.encode(), b"\x02sMN Run\x03".to_vec());
}

#[test]
fn scan_data_query_bytes() {
    assert_eq!(Request::ScanData.encode(), b"\x02sRN LMDscandata\x03".to_vec());
}

#[test]
fn application_activation_bytes() {
    let field_off =
        Request::SetApplicationActivation(Application::Field, ApplicationActivation::Disabled);
    let field_on =
        Request::SetApplicationActivation(Application::Field, ApplicationActivation::Enabled);
    let ranging_off =
        Request::SetApplicationActivation(Application::Ranging, ApplicationActivation::Disabled);
    let ranging_on =
        Request::SetApplicationActivation(Application::Ranging, ApplicationActivation::Enabled);
    assert_eq!(field_off.encode(), b"\x02sWN SetActiveApplications 1 FEVL 0\x03".to_vec());
    assert_eq!(field_on.encode(), b"\x02sWN SetActiveApplications 1 FEVL 1\x03".to_vec());
    assert_eq!(ranging_off.encode(), b"\x02sWN SetActiveApplications 1 RANG 0\x03".to_vec());
    assert_eq!(ranging_on.encode(), b"\x02sWN SetActiveApplications 1 RANG 1\x03".to_vec());
}

#[test]
fn encoding_is_deterministic() {
    assert_eq!(Request::Run.encode(), Request::Run.encode());
}

#[test]
fn every_request_is_framed() {
    let requests = [
        Request::DeviceState,
        Request::SetAccessMode,
        Request::StartMeasurement,
        Request::StopMeasurement,
        Request::SetApplicationActivation(Application::Field, ApplicationActivation::Disabled),
        Request::Run,
        Request::ScanData,
    ];
    for request in requests {
        let bytes = request.encode();
        assert_eq!(bytes[0], 0x02);
        assert_eq!(bytes[bytes.len() - 1], 0x03);
        assert_eq!(bytes.iter().filter(|byte| **byte == 0x03).count(), 1);
    }
}

#[test]
fn scan_data_telegram_bytes() {
    assert_eq!(
        encode_scan_data(&[10, 20, 30]),
        b"\x02sRA LMDscandata 0 0 0 0 0 0 0 0 0 0 0 0 0 0 0 0 0 1 0 0 0 0 0 3 A 14 1E 0\x03"
            .to_vec()
    );
}

#[test]
fn empty_scan_data_telegram_bytes() {
    assert_eq!(
        encode_scan_data(&[]),
        b"\x02sRA LMDscandata 0 0 0 0 0 0 0 0 0 0 0 0 0 0 0 0 0 1 0 0 0 0 0 0 0\x03".to_vec()
    );
}

#[test]
fn scan_data_round_trip() {
    let samples: Vec<Vec<usize>> = vec![
        vec![],
        vec![0],
        vec![10, 20, 30],
        vec![usize::MAX, 0, 1, 15, 16, 255, 256, 4095, 65535],
        (0..1000).collect(),
    ];
    for values in samples {
        let bytes = encode_scan_data(&values);
        let consumed = bytes.len();
        assert_eq!(
            response(&bytes),
            Decoded::Matched(Response::ScanData { values }, consumed)
        );
    }
}
