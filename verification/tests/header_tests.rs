use protocol::header::{Error, Opcode, RequestHeader, ResponseHeader, StatusCode};
use protocol::utils::{ErrorCode, MAGIC, VERSION};

#[test]
fn request_header_matches_documented_list_bytes() {
    let bytes = RequestHeader::new(Opcode::LIST, 0, 0).into_bytes();
    assert_eq!(bytes, [0x46, 0x53, 0x01, 0x01, 0, 0, 0, 0, 0, 0, 0, 0, 0, 0]);
}

#[test]
fn request_header_matches_documented_upload_bytes() {
    let bytes = RequestHeader::new(Opcode::UPLOAD, 9, 13).into_bytes();
    assert_eq!(bytes, [0x46, 0x53, 0x01, 0x02, 0x00, 0x09, 0, 0, 0, 0, 0, 0, 0, 0x0D]);
}

#[test]
fn request_header_round_trip() {
    let h = RequestHeader::new(Opcode::DELETE, 0x1234, 0x0102_0304_0506_0708);
    let bytes = h.into_bytes();
    assert_eq!(bytes[6..], [1, 2, 3, 4, 5, 6, 7, 8]);
    let back = match RequestHeader::try_from(&bytes) {
        Ok(h) => h,
        Err(_) => panic!("a header made by new must read back"),
    };
    assert_eq!(back.get_magic(), MAGIC);
    assert_eq!(back.get_version(), VERSION);
    assert!(matches!(back.get_opcode(), Opcode::DELETE));
    assert_eq!(back.get_filename_len(), 0x1234);
    assert_eq!(back.get_payload_len(), 0x0102_0304_0506_0708);
    assert_eq!(back.into_bytes(), bytes);
}

#[test]
fn request_header_bad_magic_is_bad_request() {
    let mut bytes = RequestHeader::new(Opcode::LIST, 0, 0).into_bytes();
    bytes[0] = 0x47;
    assert!(matches!(RequestHeader::try_from(&bytes), Err(Error::BadRequest)));
}

#[test]
fn request_header_unknown_opcode_is_bad_request() {
    let mut bytes = RequestHeader::new(Opcode::LIST, 0, 0).into_bytes();
    bytes[3] = 0x05;
    assert!(matches!(RequestHeader::try_from(&bytes), Err(Error::BadRequest)));
    bytes[3] = 0x00;
    assert!(matches!(RequestHeader::try_from(&bytes), Err(Error::BadRequest)));
}

#[test]
fn request_header_keeps_any_version() {
    let mut bytes = RequestHeader::new(Opcode::DOWNLOAD, 3, 0).into_bytes();
    bytes[2] = 0x07;
    let h = match RequestHeader::try_from(&bytes) {
        Ok(h) => h,
        Err(_) => panic!("version is not checked"),
    };
    assert_eq!(h.get_version(), 7);
    assert!(matches!(h.get_opcode(), Opcode::DOWNLOAD));
}

#[test]
fn response_header_bytes_and_round_trip() {
    let h = ResponseHeader::new(StatusCode::ErrorBadRequest, 300);
    let bytes = h.into_bytes();
    assert_eq!(bytes, [0x46, 0x53, 0x01, 0xFF, 0, 0, 0, 0, 0, 0, 0x01, 0x2C]);
    let back = match ResponseHeader::try_from(&bytes) {
        Ok(h) => h,
        Err(_) => panic!("must read back"),
    };
    assert_eq!(back.get_status_code(), StatusCode::ErrorBadRequest);
    assert_eq!(back.get_payload_len(), 300);
    assert_eq!(back.get_magic(), MAGIC);
    assert_eq!(back.into_bytes(), bytes);
}

#[test]
fn response_header_status_bytes() {
    let cases = [
        (StatusCode::Success, 0x00u8),
        (StatusCode::ErrorNotFound, 0x01),
        (StatusCode::ErrorExists, 0x02),
        (StatusCode::ErrorIo, 0x03),
        (StatusCode::ErrorBadRequest, 0xFF),
    ];
    for (status, byte) in cases {
        let bytes = ResponseHeader::new(status, 0).into_bytes();
        assert_eq!(bytes[3], byte);
        assert_eq!(StatusCode::from_byte(byte), Some(status));
        assert_eq!(status.to_byte(), byte);
    }
}

#[test]
fn response_header_unknown_status_is_bad_response() {
    let mut bytes = ResponseHeader::new(StatusCode::Success, 0).into_bytes();
    bytes[3] = 0x04;
    assert!(matches!(ResponseHeader::try_from(&bytes), Err(Error::BadResponse)));
}

#[test]
fn response_header_bad_magic_is_bad_request() {
    let mut bytes = ResponseHeader::new(StatusCode::Success, 0).into_bytes();
    bytes[1] = 0x00;
    assert!(matches!(ResponseHeader::try_from(&bytes), Err(Error::BadRequest)));
}

#[test]
fn opcode_bytes() {
    assert_eq!(Opcode::LIST.to_byte(), 1);
    assert_eq!(Opcode::UPLOAD.to_byte(), 2);
    assert_eq!(Opcode::DOWNLOAD.to_byte(), 3);
    assert_eq!(Opcode::DELETE.to_byte(), 4);
    assert_eq!(Opcode::from_byte(4), Some(Opcode::DELETE));
    assert_eq!(Opcode::from_byte(9), None);
}

#[test]
fn header_error_converts_to_error_code() {
    assert_eq!(ErrorCode::from(Error::BadRequest), ErrorCode::ErrorBadRequest);
    assert_eq!(ErrorCode::from(Error::BadResponse), ErrorCode::ErrorBadResponse);
}
