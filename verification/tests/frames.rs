//! Frames on the wire
use hydra::frame::{build_data, build_headers, build_ping, build_ping_ack, build_rst_stream};
use hydra::frame::{build_settings_ack, HttpFrame, WrappedReceive};
use hydra::http::{Http2ErrorCode, HttpError};

fn decode(bytes: &[u8]) -> Result<HttpFrame, HttpError> {
    let receiver = WrappedReceive::parse(bytes).expect("whole frame");
    assert_eq!(receiver.frame(), bytes);
    receiver.recv_frame()
}

fn is_invalid(bytes: &[u8]) -> bool {
    match decode(bytes) {
        Err(HttpError::InvalidFrame) => true,
        _ => false,
    }
}

#[test]
fn data_frames() {
    let bytes = build_data(3, vec![7, 8], false);
    assert_eq!(bytes, vec![0, 0, 2, 0, 0, 0, 0, 0, 3, 7, 8]);
    match decode(&bytes).unwrap() {
        HttpFrame::Data { id, data, end } => {
            assert_eq!((id, data, end), (3, vec![7, 8], false));
        }
        _ => unreachable!(),
    }
    let bytes = build_data(0x0102_0304, vec![0; 70_000], true);
    assert_eq!(&bytes[..9], &[1, 0x11, 0x70, 0, 1, 1, 2, 3, 4]);
    assert_eq!(bytes.len(), 70_009);
}

#[test]
fn padded_data() {
    match decode(&[0, 0, 4, 0, 9, 0, 0, 0, 1, 2, 65, 0, 0]).unwrap() {
        HttpFrame::Data { id, data, end } => assert_eq!((id, data, end), (1, vec![65], true)),
        _ => unreachable!(),
    }
    // The padding takes all there is.
    assert!(is_invalid(&[0, 0, 2, 0, 8, 0, 0, 0, 1, 2, 0]));
    // There is no length of the padding.
    assert!(is_invalid(&[0, 0, 0, 0, 8, 0, 0, 0, 1]));
    // Data belongs to a stream.
    assert!(is_invalid(&[0, 0, 0, 0, 0, 0, 0, 0, 0]));
}

#[test]
fn headers_frames() {
    assert_eq!(
        build_headers(5, vec![0x82], true),
        vec![0, 0, 1, 1, 5, 0, 0, 0, 5, 0x82],
    );
    assert_eq!(
        build_headers(5, vec![0x82], false),
        vec![0, 0, 1, 1, 4, 0, 0, 0, 5, 0x82],
    );
    // Padding and priority are left out.
    let bytes = [0, 0, 8, 1, 0x2d, 0, 0, 0, 5, 1, 0, 0, 0, 0, 16, 0x82, 0];
    match decode(&bytes).unwrap() {
        HttpFrame::Headers { id, block, end } => {
            assert_eq!((id, block, end), (5, vec![0x82], true));
        }
        _ => unreachable!(),
    }
    // Headers belong to a stream.
    assert!(is_invalid(&[0, 0, 1, 1, 4, 0, 0, 0, 0, 0x82]));
}

#[test]
fn priority_cut_short() {
    assert!(is_invalid(&[0, 0, 4, 1, 0x24, 0, 0, 0, 5, 0, 0, 0, 0]));
    assert!(is_invalid(&[0, 0, 7, 1, 0x2c, 0, 0, 0, 5, 2, 0, 0, 0, 0, 0, 0]));
    assert!(is_invalid(&[0, 0, 1, 1, 0x2c, 0, 0, 0, 5, 9]));
    assert!(decode(&[0, 0, 5, 1, 0x24, 0, 0, 0, 5, 0, 0, 0, 0, 0]).is_ok());
}

#[test]
fn settings_frames() {
    assert_eq!(build_settings_ack(), vec![0, 0, 0, 4, 1, 0, 0, 0, 0]);
    let mut bytes = vec![0, 0, 18, 4, 0, 0, 0, 0, 0];
    bytes.extend_from_slice(&[0, 3, 0, 0, 0, 100]);
    bytes.extend_from_slice(&[0, 9, 1, 2, 3, 4]);
    bytes.extend_from_slice(&[0, 6, 0xff, 0xff, 0xff, 0xff]);
    match decode(&bytes).unwrap() {
        HttpFrame::Settings { ack, settings } => {
            assert!(!ack);
            assert_eq!(settings, vec![(3, 100), (6, 0xffff_ffff)]);
        }
        _ => unreachable!(),
    }
    match decode(&build_settings_ack()).unwrap() {
        HttpFrame::Settings { ack, settings } => assert!(ack && settings.is_empty()),
        _ => unreachable!(),
    }
    assert!(is_invalid(&[0, 0, 5, 4, 0, 0, 0, 0, 0, 0, 3, 0, 0, 0]));
    assert!(is_invalid(&[0, 0, 0, 4, 0, 0, 0, 0, 1]));
    assert!(is_invalid(&[0, 0, 6, 4, 1, 0, 0, 0, 0, 0, 3, 0, 0, 0, 100]));
}

#[test]
fn ping_frames() {
    let data = vec![1, 2, 3, 4, 5, 6, 7, 8];
    assert_eq!(build_ping(data.clone())[..9], [0, 0, 8, 6, 0, 0, 0, 0, 0]);
    assert_eq!(build_ping_ack(data.clone())[..9], [0, 0, 8, 6, 1, 0, 0, 0, 0]);
    match decode(&build_ping_ack(data.clone())).unwrap() {
        HttpFrame::Ping { ack, data: echoed } => assert!(ack && echoed == data),
        _ => unreachable!(),
    }
    assert!(is_invalid(&build_ping(vec![0; 7])));
    assert!(is_invalid(&[0, 0, 8, 6, 0, 0, 0, 0, 1, 1, 2, 3, 4, 5, 6, 7, 8]));
}

#[test]
fn rst_stream_frames() {
    let bytes = build_rst_stream(7, Http2ErrorCode::Cancel);
    assert_eq!(bytes, vec![0, 0, 4, 3, 0, 0, 0, 0, 7, 0, 0, 0, 8]);
    match decode(&bytes).unwrap() {
        HttpFrame::RstStream { id, code } => assert!(id == 7 && code == Http2ErrorCode::Cancel),
        _ => unreachable!(),
    }
    assert!(is_invalid(&build_rst_stream(0, Http2ErrorCode::Cancel)));
    assert!(is_invalid(&[0, 0, 3, 3, 0, 0, 0, 0, 7, 0, 0, 0]));
}

#[test]
fn goaway_frames() {
    let bytes = [0, 0, 10, 7, 0, 0, 0, 0, 0, 0x80, 0, 0, 5, 0, 0, 0, 11, 104, 105];
    match decode(&bytes).unwrap() {
        HttpFrame::GoAway { last_stream_id, code, debug_data } => {
            assert_eq!(last_stream_id, 5);
            assert_eq!(code, Http2ErrorCode::EnhanceYourCalm);
            assert_eq!(debug_data, Some(b"hi".to_vec()));
        }
        _ => unreachable!(),
    }
    match decode(&[0, 0, 8, 7, 0, 0, 0, 0, 0, 0, 0, 0, 5, 0, 0, 0, 99]).unwrap() {
        HttpFrame::GoAway { code, debug_data, .. } => {
            assert_eq!(code, Http2ErrorCode::InternalError);
            assert_eq!(debug_data, None);
        }
        _ => unreachable!(),
    }
    assert!(is_invalid(&[0, 0, 7, 7, 0, 0, 0, 0, 0, 0, 0, 0, 5, 0, 0, 0]));
    assert!(is_invalid(&[0, 0, 8, 7, 0, 0, 0, 0, 1, 0, 0, 0, 5, 0, 0, 0, 0]));
}

#[test]
fn other_frames() {
    match decode(&[0, 0, 4, 8, 0, 0, 0, 0, 0, 0, 0, 1, 0]).unwrap() {
        HttpFrame::Other => {}
        _ => unreachable!(),
    }
}

#[test]
fn incomplete_frames() {
    let bytes = build_data(1, vec![1, 2, 3], false);
    for n in 0..bytes.len() {
        assert!(WrappedReceive::parse(&bytes[..n]).is_none());
    }
    let mut more = bytes.clone();
    more.extend_from_slice(&[9, 9]);
    assert_eq!(WrappedReceive::parse(&more).unwrap().frame(), &bytes[..]);
}

#[test]
fn error_codes() {
    let names = [
        "NoError",
        "ProtocolError",
        "InternalError",
        "FlowControlError",
        "SettingsTimeout",
        "StreamClosed",
        "FrameSizeError",
        "RefusedStream",
        "Cancel",
        "CompressionError",
        "ConnectError",
        "EnhanceYourCalm",
        "InadequateSecurity",
        "Http11Required",
    ];
    for (number, name) in names.iter().enumerate() {
        let code = Http2ErrorCode::from_u32(number as u32);
        assert_eq!(code.as_u32(), number as u32);
        assert_eq!(code.name(), *name);
    }
    assert_eq!(Http2ErrorCode::from_u32(14), Http2ErrorCode::InternalError);
}
