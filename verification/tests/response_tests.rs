use protocol::header::{ResponseHeader, StatusCode};
use protocol::response::{
    DeleteResp, DownloadResp, ErrorResp, FileEntry, ListResp, Response, UploadResp,
};
use protocol::utils::{ErrorCode, MAX_CHUNK_SIZE};

fn entry(name: &str, size: u64) -> FileEntry {
    FileEntry::new(name.len() as u16, name.to_string(), size).ok().expect("consistent entry")
}

fn header_of(message: &[u8]) -> ResponseHeader {
    let mut header_bytes = [0u8; 12];
    header_bytes.copy_from_slice(&message[..12]);
    ResponseHeader::try_from(&header_bytes).ok().expect("header reads")
}

#[test]
fn file_entry_checks_name_length() {
    let bad = FileEntry::new(3, "ab".to_string(), 1);
    assert_eq!(bad.err(), Some(ErrorCode::ErrorBadResponse));
    let good = entry("ab", 7);
    assert_eq!(good.name_len, 2);
    assert_eq!(good.name, "ab");
    assert_eq!(good.file_size, 7);
}

#[test]
fn list_response_bytes() {
    let list = vec![entry("a.txt", 13), entry("b", 0x0102)];
    let bytes = Response::<ListResp>::new(list, 2, 30).try_into().expect("list encodes");
    let mut expected = vec![0x46, 0x53, 0x01, 0x00, 0, 0, 0, 0, 0, 0, 0, 30];
    expected.extend_from_slice(&[0, 0, 0, 2]);
    expected.extend_from_slice(&[0, 5]);
    expected.extend_from_slice(b"a.txt");
    expected.extend_from_slice(&[0, 0, 0, 0, 0, 0, 0, 13]);
    expected.extend_from_slice(&[0, 1, b'b']);
    expected.extend_from_slice(&[0, 0, 0, 0, 0, 0, 1, 2]);
    assert_eq!(bytes, expected);
    assert_eq!(bytes.len() - 12, 30);
}

#[test]
fn list_response_round_trip() {
    let list = vec![entry("a.txt", 13), entry("héllo", u64::MAX), entry("", 0)];
    let bytes = Response::<ListResp>::new(list, 3, 0).try_into().expect("list encodes");
    let header = header_of(&bytes);
    assert_eq!(header.get_status_code(), StatusCode::Success);
    let parsed = ListResp::try_from(&bytes[12..].to_vec()).ok().expect("list reads");
    assert_eq!(parsed.get_file_count(), 3);
    let entries = parsed.get_entries();
    assert_eq!(entries.len(), 3);
    assert_eq!(entries[0].name, "a.txt");
    assert_eq!(entries[0].file_size, 13);
    assert_eq!(entries[1].name, "héllo");
    assert_eq!(entries[1].name_len, 6);
    assert_eq!(entries[1].file_size, u64::MAX);
    assert_eq!(entries[2].name, "");
}

#[test]
fn list_read_ignores_trailing_bytes() {
    let mut payload = vec![0, 0, 0, 1, 0, 1, b'x', 0, 0, 0, 0, 0, 0, 0, 9];
    payload.extend_from_slice(&[0xAA, 0xBB]);
    let parsed = ListResp::try_from(&payload).ok().expect("list reads");
    assert_eq!(parsed.get_file_count(), 1);
    assert_eq!(parsed.get_entries()[0].name, "x");
    assert_eq!(parsed.get_entries()[0].file_size, 9);
}

#[test]
fn list_read_errors() {
    let short = vec![0, 0, 1];
    assert_eq!(ListResp::try_from(&short).err(), Some(ErrorCode::ErrorBadResponse));
    let missing_entry = vec![0, 0, 0, 1];
    assert_eq!(ListResp::try_from(&missing_entry).err(), Some(ErrorCode::ErrorBadResponse));
    let cut_name = vec![0, 0, 0, 1, 0, 4, b'a', b'b'];
    assert_eq!(ListResp::try_from(&cut_name).err(), Some(ErrorCode::ErrorBadResponse));
    let bad_utf8 = vec![0, 0, 0, 1, 0, 1, 0xFF, 0, 0, 0, 0, 0, 0, 0, 1];
    assert_eq!(ListResp::try_from(&bad_utf8).err(), Some(ErrorCode::ErrorBadResponse));
    let cut_size = vec![0, 0, 0, 1, 0, 1, b'a', 0, 0, 0];
    assert_eq!(ListResp::try_from(&cut_size).err(), Some(ErrorCode::ErrorBadResponse));
    let empty = vec![0, 0, 0, 0];
    let parsed = ListResp::try_from(&empty).ok().expect("empty list reads");
    assert_eq!(parsed.get_file_count(), 0);
    assert!(parsed.get_entries().is_empty());
}

#[test]
fn inconsistent_entry_fails_the_response() {
    let bad = FileEntry { name_len: 9, name: "a".to_string(), file_size: 1 };
    let r = Response::<ListResp>::new(vec![bad], 1, 11).try_into();
    assert_eq!(r, Err(ErrorCode::ErrorBadResponse));
}

#[test]
fn upload_and_delete_responses_have_no_payload() {
    let bytes = Response::<UploadResp>::new().try_into().expect("encodes");
    assert_eq!(bytes, vec![0x46, 0x53, 0x01, 0x00, 0, 0, 0, 0, 0, 0, 0, 0]);
    let _unused: Option<DeleteResp> = None;
}

#[test]
fn error_response_carries_message() {
    let bytes = Response::<ErrorResp>::new(ErrorCode::ErrorNotFound).try_into().expect("encodes");
    let header = header_of(&bytes);
    assert_eq!(header.get_status_code(), StatusCode::ErrorNotFound);
    assert_eq!(header.get_payload_len(), 26);
    assert_eq!(&bytes[12..], b"File or resource not found");
    let bytes = Response::<ErrorResp>::new(ErrorCode::ErrorTimeOut).try_into().expect("encodes");
    let header = header_of(&bytes);
    assert_eq!(header.get_status_code(), StatusCode::ErrorBadRequest);
    assert_eq!(header.get_payload_len() as usize, bytes.len() - 12);
}

#[test]
fn download_response_bytes_and_read() {
    let bytes = Response::<DownloadResp>::new(20, b"abc".to_vec()).try_into().expect("encodes");
    let mut expected = vec![0x46, 0x53, 0x01, 0x00, 0, 0, 0, 0, 0, 0, 0, 20];
    expected.extend_from_slice(b"abc");
    assert_eq!(bytes, expected);
    let header = header_of(&bytes);
    let d = DownloadResp::try_from(&header, bytes[12..].to_vec()).ok().expect("reads");
    assert_eq!(d.get_payload_size(), 20);
    assert_eq!(d.get_chunk(), b"abc");
}

#[test]
fn download_response_errors() {
    let r = Response::<DownloadResp>::new(2, b"abc".to_vec()).try_into();
    assert_eq!(r, Err(ErrorCode::ErrorBadResponse));
    let r = Response::<DownloadResp>::new(u64::MAX, vec![0; MAX_CHUNK_SIZE + 1]).try_into();
    assert_eq!(r, Err(ErrorCode::ErrorBadResponse));
    let header = ResponseHeader::new(StatusCode::Success, 2);
    assert_eq!(
        DownloadResp::try_from(&header, b"abc".to_vec()).err(),
        Some(ErrorCode::ErrorBadResponse)
    );
    let header = ResponseHeader::new(StatusCode::Success, u64::MAX);
    assert_eq!(
        DownloadResp::try_from(&header, vec![0; MAX_CHUNK_SIZE + 1]).err(),
        Some(ErrorCode::ErrorBadResponse)
    );
}

#[test]
fn upload_response_read_never_succeeds() {
    let good = ResponseHeader::new(StatusCode::Success, 0).into_bytes().to_vec();
    assert_eq!(UploadResp::try_from(good).err(), Some(ErrorCode::ErrorBadResponse));
    let mut bad_magic = ResponseHeader::new(StatusCode::Success, 0).into_bytes().to_vec();
    bad_magic[0] = 0;
    assert_eq!(UploadResp::try_from(bad_magic).err(), Some(ErrorCode::ErrorBadRequest));
    let mut bad_status = ResponseHeader::new(StatusCode::Success, 0).into_bytes().to_vec();
    bad_status[3] = 9;
    assert_eq!(UploadResp::try_from(bad_status).err(), Some(ErrorCode::ErrorBadResponse));
}
