use protocol::header::{Opcode, RequestHeader};
use protocol::request::{DeleteReq, DownloadReq, ListReq, Request, UploadReq};
use protocol::utils::{ErrorCode, MAX_CHUNK_SIZE};

fn upload_message() -> Vec<u8> {
    let chunk = b"Hello, World!".to_vec();
    Request::<UploadReq>::new("hello.txt".to_string(), 9, 13, chunk)
        .try_into()
        .expect("a consistent upload encodes")
}

#[test]
fn list_request_matches_documented_bytes() {
    let bytes = Request::<ListReq>::new().try_into().expect("LIST encodes");
    assert_eq!(bytes, vec![0x46, 0x53, 0x01, 0x01, 0, 0, 0, 0, 0, 0, 0, 0, 0, 0]);
}

#[test]
fn upload_request_matches_documented_bytes() {
    let mut expected = vec![0x46, 0x53, 0x01, 0x02, 0x00, 0x09, 0, 0, 0, 0, 0, 0, 0, 0x0D];
    expected.extend_from_slice(b"hello.txt");
    expected.extend_from_slice(b"Hello, World!");
    assert_eq!(upload_message(), expected);
}

#[test]
fn download_request_matches_documented_bytes() {
    let bytes = Request::<DownloadReq>::new("hello.txt".to_string(), 9)
        .try_into()
        .expect("DOWNLOAD encodes");
    let mut expected = vec![0x46, 0x53, 0x01, 0x03, 0x00, 0x09, 0, 0, 0, 0, 0, 0, 0, 0x00];
    expected.extend_from_slice(b"hello.txt");
    assert_eq!(bytes, expected);
}

#[test]
fn delete_request_bytes() {
    let bytes = Request::<DeleteReq>::new("a".to_string(), 1).try_into().expect("DELETE encodes");
    assert_eq!(bytes, vec![0x46, 0x53, 0x01, 0x04, 0x00, 0x01, 0, 0, 0, 0, 0, 0, 0, 0, b'a']);
}

#[test]
fn wrong_name_length_is_bad_request() {
    let r = Request::<DownloadReq>::new("hello.txt".to_string(), 8).try_into();
    assert_eq!(r, Err(ErrorCode::ErrorBadRequest));
    let r = Request::<DeleteReq>::new("hello.txt".to_string(), 10).try_into();
    assert_eq!(r, Err(ErrorCode::ErrorBadRequest));
    let r = Request::<UploadReq>::new("hello.txt".to_string(), 3, 1, vec![1]).try_into();
    assert_eq!(r, Err(ErrorCode::ErrorBadRequest));
}

#[test]
fn name_length_counts_utf8_bytes() {
    let bytes = Request::<DownloadReq>::new("é".to_string(), 2).try_into().expect("two bytes");
    assert_eq!(bytes[14..], [0xC3, 0xA9]);
    let r = Request::<DownloadReq>::new("é".to_string(), 1).try_into();
    assert_eq!(r, Err(ErrorCode::ErrorBadRequest));
}

#[test]
fn upload_chunk_longer_than_file_is_bad_request() {
    let r = Request::<UploadReq>::new("a".to_string(), 1, 2, vec![1, 2, 3]).try_into();
    assert_eq!(r, Err(ErrorCode::ErrorBadRequest));
}

#[test]
fn upload_chunk_over_limit_is_bad_request() {
    let chunk = vec![0u8; MAX_CHUNK_SIZE + 1];
    let r = Request::<UploadReq>::new("a".to_string(), 1, u64::MAX, chunk).try_into();
    assert_eq!(r, Err(ErrorCode::ErrorBadRequest));
    let chunk = vec![0u8; MAX_CHUNK_SIZE];
    let r = Request::<UploadReq>::new("a".to_string(), 1, u64::MAX, chunk).try_into();
    assert_eq!(r.map(|b| b.len()), Ok(14 + 1 + MAX_CHUNK_SIZE));
}

fn split(message: &[u8]) -> (RequestHeader, Vec<u8>) {
    let mut header_bytes = [0u8; 14];
    header_bytes.copy_from_slice(&message[..14]);
    let header = RequestHeader::try_from(&header_bytes).ok().expect("header reads");
    (header, message[14..].to_vec())
}

#[test]
fn upload_request_round_trip() {
    let message = upload_message();
    let (header, body) = split(&message);
    assert!(matches!(header.get_opcode(), Opcode::UPLOAD));
    let req = UploadReq::try_from(&header, &body).ok().expect("body reads");
    assert_eq!(req.get_file_name(), "hello.txt");
    assert_eq!(req.get_chunk(), b"Hello, World!");
    assert_eq!(req.get_payload_size(), 13);
}

#[test]
fn upload_body_utf8_name_is_decoded() {
    let header = RequestHeader::new(Opcode::UPLOAD, 6, 10);
    let mut body = "héllo".as_bytes().to_vec();
    body.extend_from_slice(b"abc");
    let req = UploadReq::try_from(&header, &body).ok().expect("body reads");
    assert_eq!(req.get_file_name(), "héllo");
    assert_eq!(req.get_chunk(), b"abc");
}

#[test]
fn upload_body_errors() {
    let header = RequestHeader::new(Opcode::UPLOAD, 5, 10);
    let short = b"abc".to_vec();
    assert_eq!(UploadReq::try_from(&header, &short).err(), Some(ErrorCode::ErrorBadRequest));
    let not_utf8 = vec![b'a', 0xFF, b'b', b'c', b'd', 1];
    assert_eq!(UploadReq::try_from(&header, &not_utf8).err(), Some(ErrorCode::ErrorBadRequest));
    let with_slash = b"a/bcdxyz".to_vec();
    assert_eq!(UploadReq::try_from(&header, &with_slash).err(), Some(ErrorCode::ErrorBadRequest));
    let with_dots = b"..bcdxyz".to_vec();
    assert_eq!(UploadReq::try_from(&header, &with_dots).err(), Some(ErrorCode::ErrorBadRequest));
    let too_long_chunk = b"abcde12345678901".to_vec();
    assert_eq!(
        UploadReq::try_from(&header, &too_long_chunk).err(),
        Some(ErrorCode::ErrorBadRequest)
    );
    let just_fits = b"abcde1234567890".to_vec();
    assert!(UploadReq::try_from(&header, &just_fits).is_ok());
}

#[test]
fn upload_body_chunk_over_limit() {
    let header = RequestHeader::new(Opcode::UPLOAD, 1, u64::MAX);
    let mut body = vec![b'a'];
    body.extend(vec![0u8; MAX_CHUNK_SIZE + 1]);
    assert_eq!(UploadReq::try_from(&header, &body).err(), Some(ErrorCode::ErrorBadRequest));
}

#[test]
fn outgoing_names_keep_the_rules() {
    let r = Request::<DownloadReq>::new("a/b".to_string(), 3).try_into();
    assert_eq!(r, Err(ErrorCode::ErrorBadRequest));
    let r = Request::<DeleteReq>::new("..".to_string(), 2).try_into();
    assert_eq!(r, Err(ErrorCode::ErrorBadRequest));
    let r = Request::<UploadReq>::new("a\\b".to_string(), 3, 1, vec![1]).try_into();
    assert_eq!(r, Err(ErrorCode::ErrorBadRequest));
    let long = "x".repeat(256);
    let r = Request::<UploadReq>::new(long, 256, 1, vec![1]).try_into();
    assert_eq!(r, Err(ErrorCode::ErrorBadRequest));
    let ok = "x".repeat(255);
    let r = Request::<UploadReq>::new(ok, 255, 1, vec![1]).try_into();
    assert_eq!(r.map(|b| b.len()), Ok(14 + 255 + 1));
}
