//! The decisions of a server: what a request asks for, how much of an
//! upload to read first, and what a file list's response holds.
use vstd::prelude::*;
use vstd::utf8::encode_utf8;

use crate::header::{
    error_code_of, lemma_response_header_roundtrip, parse_request_header, response_header_bytes,
    Error, Opcode, RequestHeader, RequestHeaderView, ResponseHeaderView, StatusCode,
    RESPONSE_HEADER_SIZE,
};
use crate::request::{parse_upload_body, UploadReq};
use crate::response::{
    entries_bytes, entry_views, list_payload, ErrorResp, FileEntry, FileEntryView, ListResp,
    ListRespView, Response,
};
use crate::transfer::{chunk_len, chunk_len_of, lemma_usize_cast_le, Transfer};
use crate::utils::{error_text, status_of, ErrorCode, MAGIC, VERSION};
use crate::wire::{from_be16, read_be16};

verus! {

/// What a server does for a request.
#[derive(Debug, Clone, Copy, PartialEq, Eq, Structural)]
pub enum ServerAction {
    /// Send the list of stored files.
    List,
    /// Receive a file.
    Upload,
    /// Send a stored file.
    Download,
    /// Remove a stored file.
    Delete,
}

/// What a server does for a request of the given operation.
pub open spec fn action_for(op: Opcode) -> ServerAction {
    match op {
        Opcode::LIST => ServerAction::List,
        Opcode::UPLOAD => ServerAction::Upload,
        Opcode::DOWNLOAD => ServerAction::Download,
        Opcode::DELETE => ServerAction::Delete,
    }
}

/// Reads a request header and decides what to do for it. A header that
/// cannot be read is refused with the error code of its header error.
pub fn route_request(header_bytes: &[u8; 14]) -> (r: Result<(RequestHeader, ServerAction), ErrorCode>)
    ensures
        match r {
            Ok((h, a)) => parse_request_header(header_bytes@) == Ok::<RequestHeaderView, Error>(h@)
                && a == action_for(h@.opcode),
            Err(e) => parse_request_header(header_bytes@) is Err && e == error_code_of(
                parse_request_header(header_bytes@)->Err_0,
            ),
        },
{
    let header = match RequestHeader::try_from(header_bytes) {
        Ok(h) => h,
        Err(e) => {
            return Err(ErrorCode::from(e));
        },
    };
    let action = match header.get_opcode() {
        Opcode::LIST => ServerAction::List,
        Opcode::UPLOAD => ServerAction::Upload,
        Opcode::DOWNLOAD => ServerAction::Download,
        Opcode::DELETE => ServerAction::Delete,
    };
    Ok((header, action))
}

/// How many body bytes to read first for an UPLOAD request: the whole file
/// name and the first chunk of data. An upload of no data is refused with
/// `ErrorBadRequest`.
pub fn upload_read_len(header: &RequestHeader) -> (r: Result<usize, ErrorCode>)
    ensures
        match r {
            Ok(n) => header@.payload_len != 0 && n as nat == header@.filename_len as nat
                + chunk_len_of(header@.payload_len),
            Err(e) => header@.payload_len == 0 && e == ErrorCode::ErrorBadRequest,
        },
{
    let payload_size = header.get_payload_len();
    if payload_size == 0 {
        return Err(ErrorCode::ErrorBadRequest);
    }
    Ok(header.get_filename_len() as usize + chunk_len(payload_size))
}

/// Every UPLOAD body that reads carries a chunk no longer than its file.
pub proof fn lemma_parsed_upload_chunk_fits(filename_len: u16, payload_len: u64, b: Seq<u8>)
    requires
        parse_upload_body(filename_len, payload_len, b) is Ok,
    ensures
        parse_upload_body(filename_len, payload_len, b)->Ok_0.chunk.len() <= payload_len,
{
    lemma_usize_cast_le(payload_len);
}

/// The rest of an upload, once its first chunk has come.
pub fn upload_transfer(req: &UploadReq) -> (t: Transfer)
    requires
        req@.chunk.len() <= req@.payload_size,
    ensures
        t@ == req@.payload_size - req@.chunk.len(),
{
    Transfer::new(req.get_payload_size() - req.get_chunk().len() as u64)
}

/// How many payload bytes a run of entries takes: ten for each, plus the
/// bytes of its name.
pub open spec fn entries_len(es: Seq<FileEntryView>) -> nat
    decreases es.len(),
{
    if es.len() == 0 {
        0
    } else {
        10 + encode_utf8(es[0].name).len() + entries_len(es.drop_first())
    }
}

/// The payload length of two runs of entries is the sum of theirs.
pub proof fn lemma_entries_len_concat(a: Seq<FileEntryView>, b: Seq<FileEntryView>)
    ensures
        entries_len(a + b) == entries_len(a) + entries_len(b),
    decreases a.len(),
{
    if a.len() == 0 {
        assert(a + b =~= b);
    } else {
        lemma_entries_len_concat(a.drop_first(), b);
        assert((a + b).drop_first() =~= a.drop_first() + b);
        assert((a + b)[0] == a[0]);
    }
}

/// The bytes of a run of consistent entries are as many as `entries_len`
/// counts.
pub proof fn lemma_entries_bytes_len(es: Seq<FileEntryView>)
    requires
        entries_bytes(es) is Some,
    ensures
        entries_bytes(es)->Some_0.len() == entries_len(es),
    decreases es.len(),
{
    if es.len() > 0 {
        lemma_entries_bytes_len(es.drop_first());
    }
}

/// The answer to a LIST request for these files: their number as the file
/// count, and as payload length the bytes that the count and the entries
/// take.
pub fn list_response(entries: Vec<FileEntry>) -> (r: Response<ListResp>)
    requires
        4 + entries_len(entry_views(entries@)) <= usize::MAX,
    ensures
        r.header_view() == (ResponseHeaderView {
            magic: MAGIC,
            version: VERSION,
            status_code: StatusCode::Success,
            payload_len: (4 + entries_len(entry_views(entries@))) as u64,
        }),
        r.content()@ == (ListRespView {
            file_count: entries@.len() as u32,
            entries: entry_views(entries@),
        }),
        entries_bytes(entry_views(entries@)) is Some && entries@.len() <= u32::MAX ==> {
            &&& r.wire_bytes() is Ok
            &&& r.wire_bytes()->Ok_0.len() == RESPONSE_HEADER_SIZE + r.header_view().payload_len
        },
{
    let ghost es = entry_views(entries@);
    let mut total: usize = 4;
    let mut j: usize = 0;
    assert(es.take(0) =~= Seq::<FileEntryView>::empty());
    while j < entries.len()
        invariant
            0 <= j <= entries@.len(),
            es == entry_views(entries@),
            4 + entries_len(es) <= usize::MAX,
            total == 4 + entries_len(es.take(j as int)),
        decreases entries@.len() - j,
    {
        proof {
            assert(es[j as int] == entries@[j as int]@);
            let one = seq![es[j as int]];
            assert(one.drop_first() =~= Seq::<FileEntryView>::empty());
            assert(es.take(j + 1) =~= es.take(j as int) + one);
            lemma_entries_len_concat(es.take(j as int), one);
            assert(es =~= es.take(j + 1) + es.skip(j + 1));
            lemma_entries_len_concat(es.take(j + 1), es.skip(j + 1));
            assert(entries_len(Seq::<FileEntryView>::empty()) == 0);
            assert(entries_len(one) == 10 + encode_utf8(es[j as int].name).len());
        }
        let name_len = entries[j].name.as_str().as_bytes().len();
        assert(name_len == encode_utf8(es[j as int].name).len());
        total = total + 10 + name_len;
        j = j + 1;
    }
    assert(es.take(j as int) =~= es);
    let count = #[verifier::truncate] (entries.len() as u32);
    let ghost n = entries@.len();
    let r = Response::<ListResp>::new(entries, count, total as u64);
    proof {
        if entries_bytes(es) is Some && n <= u32::MAX {
            assert(count == n);
            lemma_list_response_length(es);
            lemma_response_header_roundtrip(r.header_view());
        }
    }
    r
}

/// The payload length a server announces for a file list is the length of
/// the payload it sends, whenever every entry's name length is right and the
/// number of files fits the four-byte count.
pub proof fn lemma_list_response_length(es: Seq<FileEntryView>)
    requires
        entries_bytes(es) is Some,
        es.len() <= u32::MAX,
    ensures
        list_payload(ListRespView { file_count: es.len() as u32, entries: es }) is Ok,
        list_payload(ListRespView { file_count: es.len() as u32, entries: es })->Ok_0.len() == 4
            + entries_len(es),
{
    lemma_entries_bytes_len(es);
}

/// What a server does with a request it refuses.
#[derive(Debug)]
pub enum Refusal {
    /// The bytes are not a message of this protocol: close the connection.
    Drop,
    /// Send these bytes, an error response, and go on.
    Answer(Vec<u8>),
    /// Send these bytes, an error response, then close the connection: file
    /// data the client is still sending cannot be told apart from the next
    /// request.
    AnswerAndClose(Vec<u8>),
}

/// The error response that reports `e`: its status, and its message as the
/// payload, whose length the header carries.
pub open spec fn error_response_bytes(e: ErrorCode) -> Seq<u8> {
    response_header_bytes(
        ResponseHeaderView {
            magic: MAGIC,
            version: VERSION,
            status_code: status_of(e),
            payload_len: encode_utf8(error_text(e)).len() as u64,
        },
    ) + encode_utf8(error_text(e))
}

/// Whether a request header announces file data that follows it.
pub open spec fn announces_upload_data(b: Seq<u8>) -> bool {
    parse_request_header(b) matches Ok(h) && h.opcode == Opcode::UPLOAD && h.payload_len != 0
}

/// Decides how to refuse a request whose header bytes are `header_bytes`
/// and whose handling failed with `error`: when the magic is not this
/// protocol's, the connection is dropped; otherwise the error is answered,
/// and the connection closed after the answer when the header announced
/// upload data.
pub fn refuse(header_bytes: &[u8; 14], error: ErrorCode) -> (r: Refusal)
    ensures
        from_be16(header_bytes@[0], header_bytes@[1]) != MAGIC ==> r is Drop,
        from_be16(header_bytes@[0], header_bytes@[1]) == MAGIC && announces_upload_data(
            header_bytes@,
        ) ==> (r matches Refusal::AnswerAndClose(b) && b@ == error_response_bytes(error)),
        from_be16(header_bytes@[0], header_bytes@[1]) == MAGIC && !announces_upload_data(
            header_bytes@,
        ) ==> (r matches Refusal::Answer(b) && b@ == error_response_bytes(error)),
{
    if read_be16(header_bytes.as_slice(), 0) != MAGIC {
        return Refusal::Drop;
    }
    let close = match RequestHeader::try_from(header_bytes) {
        Ok(h) => match h.get_opcode() {
            Opcode::UPLOAD => h.get_payload_len() != 0,
            _ => false,
        },
        Err(_) => false,
    };
    let resp = Response::<ErrorResp>::new(error);
    match resp.try_into() {
        Ok(bytes) => if close {
            Refusal::AnswerAndClose(bytes)
        } else {
            Refusal::Answer(bytes)
        },
        Err(_) => {
            proof {
                assert(false);
            }
            Refusal::Drop
        },
    }
}

} // verus!
