//! Round trips and exact frames of both protocol revisions, and the errors
//! a malformed slice earns.

use rfb::actuator;
use rfb::error::DecodeError;
use rfb::sensor;

#[test]
fn actuator_request() {
    let request = actuator::Request::Generate {
        rising_edges: 5,
        period_picos: 2,
    };
    let output = request.encode();
    assert_eq!(output.len(), 13);
    let back = actuator::Request::decode(&output).unwrap();
    assert_eq!(back, request);
}

#[test]
fn sensor_request() {
    let request = sensor::Request::GetCount;
    let output = request.encode();
    let back = sensor::Request::decode(&output).unwrap();
    assert!(matches!(back, sensor::Request::GetCount));
}

#[test]
fn max_count() {
    let response = sensor::Response::Count(u32::MAX);
    let output = response.encode();
    let back = sensor::Response::decode(&output).unwrap();
    assert!(matches!(back, sensor::Response::Count(n) if n == u32::MAX));
}

#[test]
fn min_count() {
    let response = sensor::Response::Count(u32::MIN);
    let output = response.encode();
    let back = sensor::Response::decode(&output).unwrap();
    assert!(matches!(back, sensor::Response::Count(n) if n == u32::MIN));
}

#[test]
fn is() {
    let response = sensor::Response::IAm(b"or is it?".to_vec());
    let output = response.encode();
    assert_eq!(output.len(), sensor::IDENTITY_FRAME_LEN);
    let back = sensor::Response::decode(&output).unwrap();
    assert!(matches!(back, sensor::Response::IAm(s) if s.as_slice() == b"or is it?"));
}

#[test]
fn actuator_message_request() {
    let request = actuator::Message::Request {
        rising_edges: 5,
        period_picos: 2,
    };
    let output = request.encode();
    assert_eq!(output.len(), 17);
    let back = actuator::Message::decode(&output).unwrap();
    assert_eq!(back, request);
}

#[test]
fn sensor_message_request() {
    let request = sensor::Message::Request;
    let output = request.encode();
    let back = sensor::Message::decode(&output).unwrap();
    assert!(matches!(back, sensor::Message::Request));
}

#[test]
fn response() {
    let response = sensor::Message::Response(84);
    let output = response.encode();
    assert_eq!(output.len(), 9);
    let back = sensor::Message::decode(&output).unwrap();
    assert!(matches!(back, sensor::Message::Response(n) if n == 84));
}

#[test]
fn count_frame_bytes() {
    let output = sensor::Response::Count(3).encode();
    assert_eq!(output, vec![0x00, 0x03, 0x00, 0x00, 0x00]);
}

#[test]
fn generate_frame_bytes() {
    let request = actuator::Request::Generate {
        rising_edges: 5,
        period_picos: 2,
    };
    let output = request.encode();
    assert_eq!(
        output,
        vec![0x02, 0x05, 0x00, 0x00, 0x00, 0x02, 0x00, 0x00, 0x00, 0x00, 0x00, 0x00, 0x00]
    );
}

#[test]
fn identity_frame_bytes() {
    let output = sensor::Response::IAm(b"dev".to_vec()).encode();
    let mut expected = vec![0x01, 0x03, b'd', b'e', b'v'];
    expected.resize(21, 0x00);
    assert_eq!(output, expected);
}

#[test]
fn message_response_frame_bytes() {
    let output = sensor::Message::Response(84).encode();
    assert_eq!(output, vec![0x01, 84, 0x00, 0x00, 0x00, 0x00, 0x00, 0x00, 0x00]);
}

#[test]
fn whoareyou_shares_its_discriminant_across_roles() {
    assert_eq!(sensor::Request::WhoAreYou.encode(), vec![0x01]);
    assert_eq!(actuator::Request::WhoAreYou.encode(), vec![0x01]);
}

#[test]
fn actuator_response_frames() {
    assert_eq!(actuator::Response::StartedGenerating.encode(), vec![0x00]);
    assert_eq!(actuator::Response::FailedGenerating.encode(), vec![0x01]);
    assert_eq!(actuator::Response::FinishedGenerating.encode(), vec![0x02]);
    for byte in 0u8..=2 {
        let back = actuator::Response::decode(&[byte]).unwrap();
        assert_eq!(back.encode(), vec![byte]);
    }
}

#[test]
fn empty_slice_is_truncated() {
    assert_eq!(
        sensor::Request::decode(&[]),
        Err(DecodeError::Truncated { needed: 1, got: 0 })
    );
    assert_eq!(
        sensor::Message::decode(&[]),
        Err(DecodeError::Truncated { needed: 1, got: 0 })
    );
    assert!(matches!(
        sensor::Response::decode(&[]),
        Err(DecodeError::Truncated { needed: 1, got: 0 })
    ));
}

#[test]
fn unknown_discriminant_is_rejected() {
    assert_eq!(
        sensor::Request::decode(&[0x07]),
        Err(DecodeError::UnknownDiscriminant { byte: 0x07 })
    );
    assert_eq!(
        actuator::Request::decode(&[0x00]),
        Err(DecodeError::UnknownDiscriminant { byte: 0x00 })
    );
    assert_eq!(
        actuator::Response::decode(&[0xff]),
        Err(DecodeError::UnknownDiscriminant { byte: 0xff })
    );
}

#[test]
fn short_payload_is_truncated() {
    assert!(matches!(
        sensor::Response::decode(&[0x00, 0x01, 0x02]),
        Err(DecodeError::Truncated { needed: 5, got: 3 })
    ));
    assert_eq!(
        actuator::Request::decode(&[0x02, 0x05, 0x00]),
        Err(DecodeError::Truncated { needed: 13, got: 3 })
    );
    assert_eq!(
        sensor::Message::decode(&[0x01, 84]),
        Err(DecodeError::Truncated { needed: 9, got: 2 })
    );
    assert_eq!(
        actuator::Message::decode(&[0x00, 5, 0, 0]),
        Err(DecodeError::Truncated { needed: 17, got: 4 })
    );
}

#[test]
fn malformed_identity_payload_is_rejected() {
    // A length byte beyond the fixed capacity.
    let mut frame = vec![0x01, 20];
    frame.resize(21, 0x00);
    assert!(matches!(
        sensor::Response::decode(&frame),
        Err(DecodeError::InvalidPayload)
    ));
    // A padding byte that is not zero.
    let mut frame = vec![0x01, 3, b'd', b'e', b'v'];
    frame.resize(21, 0x00);
    frame[20] = 0xaa;
    assert!(matches!(
        sensor::Response::decode(&frame),
        Err(DecodeError::InvalidPayload)
    ));
}

#[test]
fn identity_capacity_bounds() {
    let empty = sensor::Response::IAm(Vec::new());
    let output = empty.encode();
    assert_eq!(output.len(), 21);
    assert!(matches!(
        sensor::Response::decode(&output),
        Ok(sensor::Response::IAm(s)) if s.is_empty()
    ));

    let longest = sensor::Response::IAm(vec![b'x'; sensor::IDENTITY_MAX_LEN]);
    let output = longest.encode();
    let back = sensor::Response::decode(&output).unwrap();
    assert!(matches!(back, sensor::Response::IAm(s) if s.len() == sensor::IDENTITY_MAX_LEN));
}

#[test]
fn trailing_bytes_are_ignored() {
    let back = sensor::Request::decode(&[0x00, 0xaa, 0xbb]).unwrap();
    assert!(matches!(back, sensor::Request::GetCount));
    let back = sensor::Response::decode(&[0x00, 7, 0, 0, 0, 0xff]).unwrap();
    assert!(matches!(back, sensor::Response::Count(7)));
}
