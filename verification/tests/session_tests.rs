use protocol::client::{expect_success, read_list_response};
use protocol::display::push_decimal;
use protocol::header::{Opcode, RequestHeader, ResponseHeader, StatusCode};
use protocol::request::{DeleteReq, DownloadReq, Request, UploadReq};
use protocol::response::{DeleteResp, DownloadResp, FileEntry, ListResp, Response};
use protocol::server::{
    list_response, refuse, route_request, upload_read_len, upload_transfer, Refusal, ServerAction,
};
use protocol::transfer::{chunk_len, Transfer};
use protocol::utils::{ErrorCode, MAX_CHUNK_SIZE};

fn entry(name: &str, size: u64) -> FileEntry {
    FileEntry::new(name.len() as u16, name.to_string(), size).ok().expect("consistent entry")
}

#[test]
fn routing_by_opcode() {
    let cases = [
        (Opcode::LIST, ServerAction::List),
        (Opcode::UPLOAD, ServerAction::Upload),
        (Opcode::DOWNLOAD, ServerAction::Download),
        (Opcode::DELETE, ServerAction::Delete),
    ];
    for (op, action) in cases {
        let bytes = RequestHeader::new(op, 0, 0).into_bytes();
        let (header, a) = route_request(&bytes).ok().expect("header reads");
        assert_eq!(a, action);
        assert_eq!(header.get_opcode(), op);
    }
    let mut bad = RequestHeader::new(Opcode::LIST, 0, 0).into_bytes();
    bad[0] = 0;
    assert_eq!(route_request(&bad).err(), Some(ErrorCode::ErrorBadRequest));
}

#[test]
fn upload_read_lengths() {
    let h = RequestHeader::new(Opcode::UPLOAD, 9, 0);
    assert_eq!(upload_read_len(&h), Err(ErrorCode::ErrorBadRequest));
    let h = RequestHeader::new(Opcode::UPLOAD, 9, 13);
    assert_eq!(upload_read_len(&h), Ok(22));
    let h = RequestHeader::new(Opcode::UPLOAD, 9, 1 << 40);
    assert_eq!(upload_read_len(&h), Ok(9 + MAX_CHUNK_SIZE));
}

#[test]
fn upload_transfer_counts_down() {
    let req = Request::<UploadReq>::new("f".to_string(), 1, 100_000, vec![1; 40]);
    let bytes = req.try_into().expect("encodes");
    let mut hb = [0u8; 14];
    hb.copy_from_slice(&bytes[..14]);
    let (header, action) = route_request(&hb).ok().expect("reads");
    assert_eq!(action, ServerAction::Upload);
    let parsed = UploadReq::try_from(&header, &bytes[14..].to_vec()).ok().expect("body reads");
    let mut t = upload_transfer(&parsed);
    assert_eq!(t.remaining(), 100_000 - 40);
    assert_eq!(t.next_chunk_len(), MAX_CHUNK_SIZE);
    t.record(MAX_CHUNK_SIZE);
    assert_eq!(t.remaining(), 100_000 - 40 - MAX_CHUNK_SIZE as u64);
    assert_eq!(t.next_chunk_len(), 100_000 - 40 - MAX_CHUNK_SIZE);
    let last = t.next_chunk_len();
    t.record(last);
    assert!(t.is_done());
    assert_eq!(t.next_chunk_len(), 0);
}

#[test]
fn chunk_lengths() {
    assert_eq!(chunk_len(0), 0);
    assert_eq!(chunk_len(10), 10);
    assert_eq!(chunk_len(MAX_CHUNK_SIZE as u64), MAX_CHUNK_SIZE);
    assert_eq!(chunk_len(u64::MAX), MAX_CHUNK_SIZE);
    let t = Transfer::new(5);
    assert!(!t.is_done());
    assert_eq!(t.next_chunk_len(), 5);
}

#[test]
fn list_response_announces_its_payload_length() {
    let resp = list_response(vec![entry("a.txt", 13), entry("héllo", 2)]);
    assert_eq!(resp.get_header().get_payload_len(), 4 + 15 + 16);
    let bytes = resp.try_into().expect("encodes");
    assert_eq!(bytes.len(), 12 + 4 + 15 + 16);
    let mut hb = [0u8; 12];
    hb.copy_from_slice(&bytes[..12]);
    let header = ResponseHeader::try_from(&hb).ok().expect("reads");
    assert_eq!(header.get_payload_len() as usize, bytes.len() - 12);
    let list = read_list_response(&header, &bytes[12..].to_vec()).ok().expect("list reads");
    assert_eq!(list.get_file_count(), 2);
    assert_eq!(list.get_entries()[1].name, "héllo");
}

#[test]
fn empty_list_response() {
    let resp = list_response(Vec::new());
    assert_eq!(resp.get_header().get_payload_len(), 4);
    let bytes = resp.try_into().expect("encodes");
    assert_eq!(bytes[12..], [0, 0, 0, 0]);
}

#[test]
fn client_status_checks() {
    assert_eq!(expect_success(&ResponseHeader::new(StatusCode::Success, 0)), Ok(()));
    for s in [
        StatusCode::ErrorNotFound,
        StatusCode::ErrorExists,
        StatusCode::ErrorIo,
        StatusCode::ErrorBadRequest,
    ] {
        assert_eq!(expect_success(&ResponseHeader::new(s, 0)), Err(ErrorCode::UnknownErr));
        let payload = vec![0, 0, 0, 0];
        assert_eq!(
            read_list_response(&ResponseHeader::new(s, 4), &payload).err(),
            Some(ErrorCode::UnknownErr)
        );
    }
    let bad = vec![0, 0];
    assert_eq!(
        read_list_response(&ResponseHeader::new(StatusCode::Success, 2), &bad).err(),
        Some(ErrorCode::ErrorBadResponse)
    );
}

#[test]
fn display_texts() {
    assert_eq!(entry("a.txt", 13).display(), "a.txt (13 bytes)");
    assert_eq!(entry("z", 0).display(), "z (0 bytes)");
    let bytes = Response::<ListResp>::new(vec![entry("a.txt", 13), entry("b", 1234567890)], 2, 0)
        .try_into()
        .expect("encodes");
    let list = ListResp::try_from(&bytes[12..].to_vec()).ok().expect("reads");
    assert_eq!(
        list.display(),
        "--- File List (2 items) ---\n  - a.txt (13 bytes)\n  - b (1234567890 bytes)\n----------------------------"
    );
    let empty = ListResp::try_from(&vec![0, 0, 0, 0]).ok().expect("reads");
    assert_eq!(empty.display(), "--- File List (0 items) ---\n----------------------------");
}

#[test]
fn decimal_digits() {
    let mut s = String::from("n=");
    push_decimal(&mut s, u64::MAX);
    assert_eq!(s, format!("n={}", u64::MAX));
    let mut s = String::new();
    push_decimal(&mut s, 0);
    assert_eq!(s, "0");
    let mut s = String::new();
    push_decimal(&mut s, 1000);
    assert_eq!(s, "1000");
}

#[test]
fn refusals() {
    let mut bad_magic = RequestHeader::new(Opcode::LIST, 0, 0).into_bytes();
    bad_magic[0] = 0x00;
    assert!(matches!(refuse(&bad_magic, ErrorCode::ErrorBadRequest), Refusal::Drop));
    let mut bad_opcode = RequestHeader::new(Opcode::LIST, 0, 0).into_bytes();
    bad_opcode[3] = 0x09;
    match refuse(&bad_opcode, ErrorCode::ErrorBadRequest) {
        Refusal::Answer(bytes) => {
            let mut expected = vec![0x46, 0x53, 0x01, 0xFF, 0, 0, 0, 0, 0, 0, 0, 18];
            expected.extend_from_slice(b"Bad request format");
            assert_eq!(bytes, expected);
        }
        _ => panic!("a header of this protocol is answered"),
    }
    let upload = RequestHeader::new(Opcode::UPLOAD, 1, 1).into_bytes();
    match refuse(&upload, ErrorCode::ErrorExists) {
        Refusal::AnswerAndClose(bytes) => {
            assert_eq!(bytes[3], 0x02);
            assert_eq!(&bytes[12..], b"File or resource already exists");
        }
        _ => panic!("a refused upload is answered, then closed"),
    }
    let empty_upload = RequestHeader::new(Opcode::UPLOAD, 1, 0).into_bytes();
    assert!(matches!(refuse(&empty_upload, ErrorCode::ErrorBadRequest), Refusal::Answer(_)));
    let download = RequestHeader::new(Opcode::DOWNLOAD, 1, 0).into_bytes();
    match refuse(&download, ErrorCode::ErrorNotFound) {
        Refusal::Answer(bytes) => {
            assert_eq!(bytes[3], 0x01);
            assert_eq!(&bytes[12..], b"File or resource not found");
        }
        _ => panic!("a refused download is answered"),
    }
}

fn split_request(bytes: &[u8]) -> (RequestHeader, ServerAction, Vec<u8>) {
    let mut hb = [0u8; 14];
    hb.copy_from_slice(&bytes[..14]);
    let (header, action) = route_request(&hb).ok().expect("header reads");
    (header, action, bytes[14..].to_vec())
}

#[test]
fn download_request_is_served() {
    let bytes = Request::<DownloadReq>::new("hello.txt".to_string(), 9).try_into().expect("encodes");
    let (header, action, body) = split_request(&bytes);
    assert_eq!(action, ServerAction::Download);
    let req = DownloadReq::try_from(&header, &body).ok().expect("body reads");
    assert_eq!(req.get_file_name(), "hello.txt");
    let answer = Response::<DownloadResp>::new(13, b"Hello, World!".to_vec()).try_into().expect("encodes");
    let mut expected = vec![0x46, 0x53, 0x01, 0x00, 0, 0, 0, 0, 0, 0, 0, 13];
    expected.extend_from_slice(b"Hello, World!");
    assert_eq!(answer, expected);
}

#[test]
fn delete_request_is_served() {
    let bytes = Request::<DeleteReq>::new("old.log".to_string(), 7).try_into().expect("encodes");
    let (header, action, body) = split_request(&bytes);
    assert_eq!(action, ServerAction::Delete);
    let req = DeleteReq::try_from(&header, &body).ok().expect("body reads");
    assert_eq!(req.get_file_name(), "old.log");
    let answer = Response::<DeleteResp>::new().try_into().expect("encodes");
    assert_eq!(answer, vec![0x46, 0x53, 0x01, 0x00, 0, 0, 0, 0, 0, 0, 0, 0]);
}

#[test]
fn name_body_errors() {
    let header = RequestHeader::new(Opcode::DOWNLOAD, 3, 0);
    assert_eq!(DownloadReq::try_from(&header, &b"ab".to_vec()).err(), Some(ErrorCode::ErrorBadRequest));
    assert_eq!(DownloadReq::try_from(&header, &b"abcd".to_vec()).err(), Some(ErrorCode::ErrorBadRequest));
    assert_eq!(DownloadReq::try_from(&header, &b"a/b".to_vec()).err(), Some(ErrorCode::ErrorBadRequest));
    assert_eq!(DeleteReq::try_from(&header, &vec![b'a', 0xFF, b'b']).err(), Some(ErrorCode::ErrorBadRequest));
    assert!(DeleteReq::try_from(&header, &b"abc".to_vec()).is_ok());
    let with_payload = RequestHeader::new(Opcode::DELETE, 3, 1);
    assert_eq!(DeleteReq::try_from(&with_payload, &b"abc".to_vec()).err(), Some(ErrorCode::ErrorBadRequest));
    let header = RequestHeader::new(Opcode::DOWNLOAD, 2, 0);
    let req = DownloadReq::try_from(&header, &"é".as_bytes().to_vec()).ok().expect("UTF-8 name reads");
    assert_eq!(req.get_file_name(), "é");
}
