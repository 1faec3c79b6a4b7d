use protocol::header::StatusCode;
use protocol::text::is_valid_file_name;
use protocol::utils::{ErrorCode, MAGIC, MAX_CHUNK_SIZE, VERSION};
use protocol::wire::{push_be16, push_be32, push_be64, read_be16, read_be32, read_be64};

#[test]
fn constants() {
    assert_eq!(MAGIC.to_be_bytes(), [0x46, 0x53]);
    assert_eq!(VERSION, 1);
    assert_eq!(MAX_CHUNK_SIZE, 64 * 1024);
}

#[test]
fn error_codes_map_to_statuses() {
    assert_eq!(ErrorCode::ErrorIo.map_to_stat_error(), StatusCode::ErrorIo);
    assert_eq!(ErrorCode::ErrorBadRequest.map_to_stat_error(), StatusCode::ErrorBadRequest);
    assert_eq!(ErrorCode::ErrorNotFound.map_to_stat_error(), StatusCode::ErrorNotFound);
    assert_eq!(ErrorCode::ErrorExists.map_to_stat_error(), StatusCode::ErrorExists);
    for other in [
        ErrorCode::UnknownErr,
        ErrorCode::ErrorBadResponse,
        ErrorCode::ErrorTimeOut,
        ErrorCode::ErrorConnection,
        ErrorCode::ErrorMem,
        ErrorCode::Empty,
    ] {
        assert_eq!(other.map_to_stat_error(), StatusCode::ErrorBadRequest);
    }
}

#[test]
fn error_messages() {
    assert_eq!(ErrorCode::UnknownErr.message(), "Unknown error occurred");
    assert_eq!(ErrorCode::ErrorNotFound.message(), "File or resource not found");
    assert_eq!(ErrorCode::ErrorIo.message(), "I/O error occurred");
    assert_eq!(ErrorCode::ErrorExists.message(), "File or resource already exists");
    assert_eq!(ErrorCode::ErrorBadRequest.message(), "Bad request format");
    assert_eq!(ErrorCode::ErrorBadResponse.message(), "Bad response format");
    assert_eq!(ErrorCode::ErrorTimeOut.message(), "Operation timed out");
    assert_eq!(ErrorCode::ErrorMem.message(), "Memory error");
    assert_eq!(ErrorCode::ErrorConnection.message(), "Connection error");
    assert_eq!(ErrorCode::Empty.message(), "Empty operation");
}

#[test]
fn big_endian_round_trips() {
    let mut buf = Vec::new();
    push_be16(&mut buf, 0xABCD);
    push_be32(&mut buf, 0x0102_0304);
    push_be64(&mut buf, 0x1122_3344_5566_7788);
    assert_eq!(
        buf,
        vec![0xAB, 0xCD, 1, 2, 3, 4, 0x11, 0x22, 0x33, 0x44, 0x55, 0x66, 0x77, 0x88]
    );
    assert_eq!(read_be16(&buf, 0), 0xABCD);
    assert_eq!(read_be32(&buf, 2), 0x0102_0304);
    assert_eq!(read_be64(&buf, 6), 0x1122_3344_5566_7788);
    assert_eq!(read_be16(&buf, 6), 0x1122);
}

#[test]
fn file_name_rules() {
    assert!(is_valid_file_name(b"hello.txt"));
    assert!(is_valid_file_name("héllo.txt".as_bytes()));
    assert!(is_valid_file_name(b"a.b.c"));
    assert!(is_valid_file_name(b""));
    assert!(!is_valid_file_name(b"a/b"));
    assert!(!is_valid_file_name(b"a\\b"));
    assert!(!is_valid_file_name(b"a\0b"));
    assert!(!is_valid_file_name(b".."));
    assert!(!is_valid_file_name(b"x..y"));
    assert!(is_valid_file_name(&[b'a'; 255]));
    assert!(!is_valid_file_name(&[b'a'; 256]));
}
