//! Responses: a header followed by a payload that depends on the request
//! answered (a file list, file data, or an error message).
use vstd::prelude::*;
use vstd::slice::{slice_subrange, slice_to_vec};
use vstd::string::StringSliceAdditionalSpecFns;
use vstd::utf8::{decode_utf8, encode_utf8, encode_utf8_decode_utf8, encode_utf8_valid_utf8, valid_utf8};

use crate::header::{
    error_code_of, lemma_response_header_roundtrip, parse_response_header, response_header_bytes,
    Error, ResponseHeader, ResponseHeaderView, StatusCode, RESPONSE_HEADER_SIZE,
};
use crate::utils::{error_text, status_of, ErrorCode, MAGIC, MAX_CHUNK_SIZE, VERSION};
use crate::wire::{
    be16, be32, be64, bytes_result, framed, from_be16, from_be32, from_be64, lemma_be16_roundtrip,
    lemma_be32_roundtrip, lemma_be64_roundtrip, push_be16, push_be32, push_be64, push_bytes,
    read_be16, read_be32, read_be64, Encode,
};

verus! {

/// A response: its header and its payload.
pub struct Response<T: Encode> {
    header: ResponseHeader,
    content: T,
}

/// The payload of a LIST response: how many files there are, and one entry
/// for each.
pub struct ListResp {
    file_count: u32,
    entries: Vec<FileEntry>,
}

/// The payload of a successful UPLOAD response, which has no bytes.
pub struct UploadResp;

/// The payload of a successful DELETE response, which has no bytes.
pub struct DeleteResp;

/// The payload of a failed request: the status that reports the failure and
/// the message that explains it.
pub struct ErrorResp {
    status_code: StatusCode,
    message: &'static str,
}

/// The payload of a DOWNLOAD response: the size of the whole file and its
/// first chunk.
pub struct DownloadResp {
    payload_size: u64,
    chunk: Vec<u8>,
}

/// One file of a file list: its name, the name's length in bytes, and the
/// file's size.
pub struct FileEntry {
    pub name_len: u16,
    pub name: String,
    pub file_size: u64,
}

/// The fields of a file entry.
pub struct FileEntryView {
    pub name_len: u16,
    pub name: Seq<char>,
    pub file_size: u64,
}

/// The fields of a file list.
pub struct ListRespView {
    pub file_count: u32,
    pub entries: Seq<FileEntryView>,
}

/// The fields of a download payload.
pub struct DownloadRespView {
    pub payload_size: u64,
    pub chunk: Seq<u8>,
}

/// The fields of an error payload.
pub struct ErrorRespView {
    pub status_code: StatusCode,
    pub message: Seq<char>,
}

impl View for FileEntry {
    type V = FileEntryView;

    open spec fn view(&self) -> FileEntryView {
        FileEntryView { name_len: self.name_len, name: self.name@, file_size: self.file_size }
    }
}

/// The views of a sequence of file entries.
pub open spec fn entry_views(v: Seq<FileEntry>) -> Seq<FileEntryView> {
    v.map_values(|e: FileEntry| e@)
}

impl View for ListResp {
    type V = ListRespView;

    closed spec fn view(&self) -> ListRespView {
        ListRespView { file_count: self.file_count, entries: entry_views(self.entries@) }
    }
}

impl View for DownloadResp {
    type V = DownloadRespView;

    closed spec fn view(&self) -> DownloadRespView {
        DownloadRespView { payload_size: self.payload_size, chunk: self.chunk@ }
    }
}

impl View for ErrorResp {
    type V = ErrorRespView;

    closed spec fn view(&self) -> ErrorRespView {
        ErrorRespView { status_code: self.status_code, message: self.message@ }
    }
}

/// Whether an entry's recorded name length is the byte length of its name.
pub open spec fn entry_consistent(e: FileEntryView) -> bool {
    e.name_len as nat == encode_utf8(e.name).len()
}

/// The bytes of one entry: name length, name, file size. None when the
/// recorded name length is wrong.
pub open spec fn entry_bytes(e: FileEntryView) -> Option<Seq<u8>> {
    if entry_consistent(e) {
        Some(be16(e.name_len) + encode_utf8(e.name) + be64(e.file_size))
    } else {
        None
    }
}

/// The bytes of a run of entries, one after the other; None when any of them
/// is inconsistent.
pub open spec fn entries_bytes(es: Seq<FileEntryView>) -> Option<Seq<u8>>
    decreases es.len(),
{
    if es.len() == 0 {
        Some(Seq::empty())
    } else {
        match (entry_bytes(es[0]), entries_bytes(es.drop_first())) {
            (Some(a), Some(b)) => Some(a + b),
            _ => None,
        }
    }
}

/// The payload of a file list: the file count, then every entry. An
/// inconsistent entry makes it fail with `UnknownErr`.
pub open spec fn list_payload(l: ListRespView) -> Result<Seq<u8>, ErrorCode> {
    match entries_bytes(l.entries) {
        Some(b) => Ok(be32(l.file_count) + b),
        None => Err(ErrorCode::UnknownErr),
    }
}

/// Reading one entry that starts at `pos`, and where the next one starts.
/// None when the bytes end inside it or its name is not UTF-8.
pub open spec fn parse_entry_at(s: Seq<u8>, pos: int) -> Option<(FileEntryView, int)> {
    if s.len() - pos < 2 {
        None
    } else {
        let name_len = from_be16(s[pos], s[pos + 1]);
        let n = name_len as int;
        if s.len() - pos - 2 < n {
            None
        } else {
            let name = s.subrange(pos + 2, pos + 2 + n);
            if !valid_utf8(name) {
                None
            } else if s.len() - pos - 2 - n < 8 {
                None
            } else {
                Some(
                    (
                        FileEntryView {
                            name_len,
                            name: decode_utf8(name),
                            file_size: from_be64(s.subrange(pos + 2 + n, pos + 10 + n)),
                        },
                        pos + 10 + n,
                    ),
                )
            }
        }
    }
}

/// Reading `k` entries, one after the other, from `pos`.
pub open spec fn parse_entries_at(s: Seq<u8>, pos: int, k: nat) -> Option<Seq<FileEntryView>>
    decreases k,
{
    if k == 0 {
        Some(Seq::empty())
    } else {
        match parse_entry_at(s, pos) {
            None => None,
            Some((e, next)) => match parse_entries_at(s, next, (k - 1) as nat) {
                Some(rest) => Some(seq![e] + rest),
                None => None,
            },
        }
    }
}

/// Reading a file list: a four-byte file count, then that many entries.
/// Anything short or malformed is `ErrorBadResponse`; bytes after the last
/// entry are not read.
pub open spec fn parse_list(s: Seq<u8>) -> Result<ListRespView, ErrorCode> {
    if s.len() < 4 {
        Err(ErrorCode::ErrorBadResponse)
    } else {
        let count = from_be32(s.subrange(0, 4));
        match parse_entries_at(s, 4, count as nat) {
            Some(es) => Ok(ListRespView { file_count: count, entries: es }),
            None => Err(ErrorCode::ErrorBadResponse),
        }
    }
}

/// The payload of a DOWNLOAD response: the chunk itself. Refused with
/// `ErrorBadResponse` when the chunk is longer than the file or than
/// `MAX_CHUNK_SIZE`.
pub open spec fn download_payload(d: DownloadRespView) -> Result<Seq<u8>, ErrorCode> {
    if (d.payload_size as nat) < d.chunk.len() || d.chunk.len() > MAX_CHUNK_SIZE {
        Err(ErrorCode::ErrorBadResponse)
    } else {
        Ok(d.chunk)
    }
}

/// Reading the first chunk of a DOWNLOAD payload, given the file size its
/// header announces: refused with `ErrorBadResponse` when it is longer than
/// `MAX_CHUNK_SIZE` or than the file.
pub open spec fn parse_download(payload_size: u64, chunk: Seq<u8>) -> Result<
    DownloadRespView,
    ErrorCode,
> {
    if chunk.len() > MAX_CHUNK_SIZE || (payload_size as nat) < chunk.len() {
        Err(ErrorCode::ErrorBadResponse)
    } else {
        Ok(DownloadRespView { payload_size, chunk })
    }
}

impl Encode for UploadResp {
    open spec fn encoded(&self) -> Result<Seq<u8>, ErrorCode> {
        Err(ErrorCode::Empty)
    }

    fn encode(self) -> (r: Result<Vec<u8>, ErrorCode>) {
        Err(ErrorCode::Empty)
    }
}

impl Encode for DeleteResp {
    open spec fn encoded(&self) -> Result<Seq<u8>, ErrorCode> {
        Err(ErrorCode::Empty)
    }

    fn encode(self) -> (r: Result<Vec<u8>, ErrorCode>) {
        Err(ErrorCode::Empty)
    }
}

impl Encode for ErrorResp {
    open spec fn encoded(&self) -> Result<Seq<u8>, ErrorCode> {
        Ok(encode_utf8(self@.message))
    }

    fn encode(self) -> (r: Result<Vec<u8>, ErrorCode>) {
        let mut buffer = Vec::new();
        push_bytes(&mut buffer, self.message.as_bytes());
        assert(buffer@ =~= encode_utf8(self@.message));
        Ok(buffer)
    }
}

impl Encode for DownloadResp {
    open spec fn encoded(&self) -> Result<Seq<u8>, ErrorCode> {
        download_payload(self@)
    }

    fn encode(self) -> (r: Result<Vec<u8>, ErrorCode>) {
        if self.payload_size < self.chunk.len() as u64 || self.chunk.len() > MAX_CHUNK_SIZE {
            return Err(ErrorCode::ErrorBadResponse);
        }
        Ok(self.chunk)
    }
}

/// Appends the bytes of `e` to `buf` when its name length is right; leaves
/// `buf` alone and answers false otherwise.
fn push_entry(buf: &mut Vec<u8>, e: &FileEntry) -> (ok: bool)
    ensures
        ok == (entry_bytes(e@) is Some),
        ok ==> final(buf)@ == old(buf)@ + entry_bytes(e@)->Some_0,
        !ok ==> final(buf)@ == old(buf)@,
{
    let name = e.name.as_str().as_bytes();
    if e.name_len as usize != name.len() {
        return false;
    }
    push_be16(buf, e.name_len);
    push_bytes(buf, name);
    push_be64(buf, e.file_size);
    assert(buf@ =~= old(buf)@ + entry_bytes(e@)->Some_0);
    true
}

impl Encode for FileEntry {
    open spec fn encoded(&self) -> Result<Seq<u8>, ErrorCode> {
        match entry_bytes(self@) {
            Some(b) => Ok(b),
            None => Err(ErrorCode::UnknownErr),
        }
    }

    fn encode(self) -> (r: Result<Vec<u8>, ErrorCode>) {
        let mut entry_buff = Vec::new();
        if push_entry(&mut entry_buff, &self) {
            assert(entry_buff@ =~= entry_bytes(self@)->Some_0);
            Ok(entry_buff)
        } else {
            Err(ErrorCode::UnknownErr)
        }
    }
}

/// The bytes of two runs of entries, one after the other, are the bytes of
/// each run, one after the other.
pub proof fn lemma_entries_bytes_concat(a: Seq<FileEntryView>, b: Seq<FileEntryView>)
    ensures
        entries_bytes(a + b) == (match (entries_bytes(a), entries_bytes(b)) {
            (Some(x), Some(y)) => Some(x + y),
            _ => None::<Seq<u8>>,
        }),
    decreases a.len(),
{
    if a.len() == 0 {
        assert(a + b =~= b);
        match entries_bytes(b) {
            Some(y) => {
                assert(Seq::<u8>::empty() + y =~= y);
            },
            None => {},
        }
    } else {
        lemma_entries_bytes_concat(a.drop_first(), b);
        assert((a + b).drop_first() =~= a.drop_first() + b);
        assert((a + b)[0] == a[0]);
        match (entry_bytes(a[0]), entries_bytes(a.drop_first()), entries_bytes(b)) {
            (Some(x), Some(y), Some(z)) => {
                assert(x + (y + z) =~= (x + y) + z);
            },
            _ => {},
        }
    }
}

impl Encode for ListResp {
    open spec fn encoded(&self) -> Result<Seq<u8>, ErrorCode> {
        list_payload(self@)
    }

    fn encode(self) -> (r: Result<Vec<u8>, ErrorCode>) {
        let mut buffer = Vec::new();
        push_be32(&mut buffer, self.file_count);
        let ghost es = entry_views(self.entries@);
        let mut j: usize = 0;
        assert(es.take(0) =~= Seq::<FileEntryView>::empty());
        while j < self.entries.len()
            invariant
                0 <= j <= self.entries@.len(),
                es == entry_views(self.entries@),
                entries_bytes(es.take(j as int)) is Some,
                buffer@ == be32(self.file_count) + entries_bytes(es.take(j as int))->Some_0,
            decreases self.entries@.len() - j,
        {
            let ghost before = buffer@;
            let ok = push_entry(&mut buffer, &self.entries[j]);
            proof {
                assert(es[j as int] == self.entries@[j as int]@);
                assert(es.take(j + 1) =~= es.take(j as int) + seq![es[j as int]]);
                lemma_entries_bytes_concat(es.take(j as int), seq![es[j as int]]);
                assert(seq![es[j as int]].drop_first() =~= Seq::<FileEntryView>::empty());
                assert(entries_bytes(Seq::<FileEntryView>::empty()) == Some(Seq::<u8>::empty()));
            }
            if !ok {
                proof {
                    assert(es =~= es.take(j + 1) + es.skip(j + 1));
                    lemma_entries_bytes_concat(es.take(j + 1), es.skip(j + 1));
                }
                return Err(ErrorCode::UnknownErr);
            }
            proof {
                let x = entries_bytes(es.take(j as int))->Some_0;
                let y = entry_bytes(es[j as int])->Some_0;
                assert(y + Seq::<u8>::empty() =~= y);
                assert(buffer@ =~= be32(self.file_count) + (x + y));
            }
            j = j + 1;
        }
        assert(es.take(j as int) =~= es);
        Ok(buffer)
    }
}

impl FileEntry {
    /// An entry for a file; refused with `ErrorBadResponse` when `name_len`
    /// is not the byte length of `name`.
    pub fn new(name_len: u16, name: String, file_size: u64) -> (r: Result<Self, ErrorCode>)
        ensures
            match r {
                Ok(e) => entry_consistent(e@) && e@ == (FileEntryView {
                    name_len,
                    name: name@,
                    file_size,
                }),
                Err(err) => err == ErrorCode::ErrorBadResponse && !entry_consistent(
                    FileEntryView { name_len, name: name@, file_size },
                ),
            },
    {
        if name_len as usize != name.as_str().as_bytes().len() {
            return Err(ErrorCode::ErrorBadResponse);
        }
        Ok(FileEntry { name_len, name, file_size })
    }
}

/// Reads the entry that starts at `pos`, and where the next one starts.
fn read_entry(s: &[u8], pos: usize) -> (r: Option<(FileEntry, usize)>)
    requires
        pos <= s@.len(),
    ensures
        match r {
            Some((e, next)) => parse_entry_at(s@, pos as int) == Some((e@, next as int)),
            None => parse_entry_at(s@, pos as int) is None,
        },
{
    let len = s.len();
    if len - pos < 2 {
        return None;
    }
    let name_len = read_be16(s, pos);
    let n = name_len as usize;
    if len - pos - 2 < n {
        return None;
    }
    let name_bytes = slice_subrange(s, pos + 2, pos + 2 + n);
    let name = match String::from_utf8(slice_to_vec(name_bytes)) {
        Ok(name) => name,
        Err(_) => {
            return None;
        },
    };
    if len - pos - 2 - n < 8 {
        return None;
    }
    let file_size = read_be64(s, pos + 2 + n);
    Some((FileEntry { name_len, name, file_size }, pos + 10 + n))
}

impl ListResp {
    /// How many files the list says there are.
    pub fn get_file_count(&self) -> (r: u32)
        ensures
            r == self@.file_count,
    {
        self.file_count
    }

    /// The entries of the list.
    pub fn get_entries(&self) -> (r: &Vec<FileEntry>)
        ensures
            entry_views(r@) == self@.entries,
    {
        &self.entries
    }

    /// Reads a file list from a LIST payload: a four-byte count, then that
    /// many entries. Refused with `ErrorBadResponse` when the bytes end early
    /// or a name is not UTF-8.
    pub fn try_from(value: &Vec<u8>) -> (r: Result<Self, ErrorCode>)
        ensures
            match r {
                Ok(l) => parse_list(value@) == Ok::<ListRespView, ErrorCode>(l@),
                Err(e) => parse_list(value@) == Err::<ListRespView, ErrorCode>(e),
            },
    {
        let s = value.as_slice();
        if s.len() < 4 {
            return Err(ErrorCode::ErrorBadResponse);
        }
        let file_count = read_be32(s, 0);
        let mut items: Vec<FileEntry> = Vec::new();
        let mut pos: usize = 4;
        let mut i: u32 = 0;
        let ghost total = parse_entries_at(s@, 4, file_count as nat);
        assert(Seq::<FileEntryView>::empty() + parse_entries_at(s@, 4, file_count as nat)->Some_0
            =~= parse_entries_at(s@, 4, file_count as nat)->Some_0);
        while i < file_count
            invariant
                s@ == value@,
                s@.len() >= 4,
                file_count == from_be32(s@.subrange(0, 4)),
                4 <= pos <= s@.len(),
                i <= file_count,
                total == parse_entries_at(s@, 4, file_count as nat),
                total == (match parse_entries_at(s@, pos as int, (file_count - i) as nat) {
                    Some(rest) => Some(entry_views(items@) + rest),
                    None => None::<Seq<FileEntryView>>,
                }),
            decreases file_count - i,
        {
            match read_entry(s, pos) {
                None => {
                    assert(parse_entries_at(s@, pos as int, (file_count - i) as nat) is None);
                    return Err(ErrorCode::ErrorBadResponse);
                },
                Some((entry, next)) => {
                    let ghost e = entry@;
                    let ghost old_items = entry_views(items@);
                    items.push(entry);
                    proof {
                        assert(entry_views(items@) =~= old_items.push(e));
                        match parse_entries_at(s@, next as int, (file_count - i - 1) as nat) {
                            Some(rest) => {
                                assert(old_items + (seq![e] + rest) =~= old_items.push(e) + rest);
                            },
                            None => {},
                        }
                    }
                    pos = next;
                    i = i + 1;
                },
            }
        }
        assert(entry_views(items@) + Seq::<FileEntryView>::empty() =~= entry_views(items@));
        Ok(ListResp { file_count, entries: items })
    }
}

impl DownloadResp {
    /// The size of the whole file.
    pub fn get_payload_size(&self) -> (r: u64)
        ensures
            r == self@.payload_size,
    {
        self.payload_size
    }

    /// The first chunk of the file.
    pub fn get_chunk(&self) -> (r: &[u8])
        ensures
            r@ == self@.chunk,
    {
        self.chunk.as_slice()
    }

    /// Reads the first chunk of a DOWNLOAD payload whose header is `header`.
    /// Refused with `ErrorBadResponse` when the chunk is longer than
    /// `MAX_CHUNK_SIZE` or than the file the header announces.
    pub fn try_from(header: &ResponseHeader, value: Vec<u8>) -> (r: Result<Self, ErrorCode>)
        ensures
            match r {
                Ok(d) => parse_download(header@.payload_len, value@) == Ok::<
                    DownloadRespView,
                    ErrorCode,
                >(d@),
                Err(e) => parse_download(header@.payload_len, value@) == Err::<
                    DownloadRespView,
                    ErrorCode,
                >(e),
            },
    {
        let payload_size = header.get_payload_len();
        if value.len() > MAX_CHUNK_SIZE || payload_size < value.len() as u64 {
            return Err(ErrorCode::ErrorBadResponse);
        }
        Ok(DownloadResp { payload_size, chunk: value })
    }
}

/// What reading an UPLOAD response's header gives: the header's own error
/// when it is malformed, and `ErrorBadResponse` when it is well formed.
pub open spec fn upload_resp_result(b: Seq<u8>) -> ErrorCode {
    match parse_response_header(b) {
        Err(e) => error_code_of(e),
        Ok(_) => ErrorCode::ErrorBadResponse,
    }
}

impl UploadResp {
    /// Reads the twelve header bytes of an UPLOAD response. This never gives
    /// an `UploadResp`: a malformed header gives its error, a well-formed one
    /// `ErrorBadResponse`.
    pub fn try_from(value: Vec<u8>) -> (r: Result<Self, ErrorCode>)
        requires
            value@.len() == 12,
        ensures
            r == Err::<UploadResp, ErrorCode>(upload_resp_result(value@)),
    {
        let header_bytes: [u8; 12] = [
            value[0],
            value[1],
            value[2],
            value[3],
            value[4],
            value[5],
            value[6],
            value[7],
            value[8],
            value[9],
            value[10],
            value[11],
        ];
        assert(header_bytes@ =~= value@);
        match ResponseHeader::try_from(&header_bytes) {
            Ok(_) => Err(ErrorCode::ErrorBadResponse),
            Err(e) => Err(ErrorCode::from(e)),
        }
    }
}

impl<T: Encode> Response<T> {
    /// The header of this response.
    pub closed spec fn header_view(&self) -> ResponseHeaderView {
        self.header@
    }

    /// The payload of this response.
    pub closed spec fn content(&self) -> T {
        self.content
    }

    /// The whole response on the wire: header bytes, then the payload's
    /// bytes. A payload that cannot be encoded (other than one with no bytes)
    /// fails the response with `ErrorBadResponse`.
    pub open spec fn wire_bytes(&self) -> Result<Seq<u8>, ErrorCode> {
        framed(
            response_header_bytes(self.header_view()),
            self.content().encoded(),
            ErrorCode::ErrorBadResponse,
        )
    }

    /// The header of this response.
    pub fn get_header(&self) -> (r: &ResponseHeader)
        ensures
            r@ == self.header_view(),
    {
        &self.header
    }

    /// The bytes of this response.
    pub fn try_into(self) -> (r: Result<Vec<u8>, ErrorCode>)
        ensures
            bytes_result(r) == self.wire_bytes(),
    {
        let mut buffer = Vec::new();
        let header_bytes = self.header.into_bytes();
        let body_bytes = match self.content.encode() {
            Ok(bytes) => bytes,
            Err(ErrorCode::Empty) => Vec::new(),
            Err(_) => {
                return Err(ErrorCode::ErrorBadResponse);
            },
        };
        push_bytes(&mut buffer, header_bytes.as_slice());
        push_bytes(&mut buffer, body_bytes.as_slice());
        Ok(buffer)
    }
}

impl Response<UploadResp> {
    /// The answer to a successful upload: status `Success`, no payload.
    pub fn new() -> (r: Self)
        ensures
            r.header_view() == (ResponseHeaderView {
                magic: MAGIC,
                version: VERSION,
                status_code: StatusCode::Success,
                payload_len: 0,
            }),
            r.wire_bytes() == Ok::<Seq<u8>, ErrorCode>(response_header_bytes(r.header_view())),
    {
        Response { header: ResponseHeader::new(StatusCode::Success, 0), content: UploadResp }
    }
}

impl Response<DeleteResp> {
    /// The answer to a successful delete: status `Success`, no payload.
    pub fn new() -> (r: Self)
        ensures
            r.header_view() == (ResponseHeaderView {
                magic: MAGIC,
                version: VERSION,
                status_code: StatusCode::Success,
                payload_len: 0,
            }),
            r.wire_bytes() == Ok::<Seq<u8>, ErrorCode>(response_header_bytes(r.header_view())),
    {
        Response { header: ResponseHeader::new(StatusCode::Success, 0), content: DeleteResp }
    }
}

impl Response<DownloadResp> {
    /// The answer to a download: status `Success`, the file's size as the
    /// payload length, and its first chunk.
    pub fn new(payload_size: u64, chunk: Vec<u8>) -> (r: Self)
        ensures
            r.header_view() == (ResponseHeaderView {
                magic: MAGIC,
                version: VERSION,
                status_code: StatusCode::Success,
                payload_len: payload_size,
            }),
            r.content()@ == (DownloadRespView { payload_size, chunk: chunk@ }),
    {
        Response {
            header: ResponseHeader::new(StatusCode::Success, payload_size),
            content: DownloadResp { payload_size, chunk },
        }
    }
}

impl Response<ListResp> {
    /// The answer to a LIST request: status `Success`, the payload length
    /// `size`, and the list.
    pub fn new(list: Vec<FileEntry>, file_count: u32, size: u64) -> (r: Self)
        ensures
            r.header_view() == (ResponseHeaderView {
                magic: MAGIC,
                version: VERSION,
                status_code: StatusCode::Success,
                payload_len: size,
            }),
            r.content()@ == (ListRespView { file_count, entries: entry_views(list@) }),
    {
        Response {
            header: ResponseHeader::new(StatusCode::Success, size),
            content: ListResp { file_count, entries: list },
        }
    }
}

impl Response<ErrorResp> {
    /// The answer to a failed request: the status that reports `error_code`,
    /// and its message as the payload, whose length the header carries.
    pub fn new(error_code: ErrorCode) -> (r: Self)
        ensures
            r.header_view() == (ResponseHeaderView {
                magic: MAGIC,
                version: VERSION,
                status_code: status_of(error_code),
                payload_len: encode_utf8(error_text(error_code)).len() as u64,
            }),
            r.content()@ == (ErrorRespView {
                status_code: status_of(error_code),
                message: error_text(error_code),
            }),
            r.content().encoded() == Ok::<Seq<u8>, ErrorCode>(
                encode_utf8(error_text(error_code)),
            ),
    {
        let status_code = error_code.map_to_stat_error();
        let message = error_code.message();
        let len = message.as_bytes().len() as u64;
        Response {
            header: ResponseHeader::new(status_code, len),
            content: ErrorResp { status_code, message },
        }
    }
}

/// An entry's bytes, wherever they stand, read back as that entry.
proof fn lemma_entry_roundtrip(p: Seq<u8>, e: FileEntryView, rest: Seq<u8>)
    requires
        entry_bytes(e) is Some,
    ensures
        parse_entry_at(p + entry_bytes(e)->Some_0 + rest, p.len() as int) == Some(
            (e, (p.len() + entry_bytes(e)->Some_0.len()) as int),
        ),
{
    let name = encode_utf8(e.name);
    let eb = entry_bytes(e)->Some_0;
    let s = p + eb + rest;
    let pos = p.len() as int;
    let n = e.name_len as int;
    lemma_be16_roundtrip(e.name_len);
    lemma_be64_roundtrip(e.file_size);
    encode_utf8_valid_utf8(e.name);
    encode_utf8_decode_utf8(e.name);
    assert(s[pos] == be16(e.name_len)[0]);
    assert(s[pos + 1] == be16(e.name_len)[1]);
    assert(s.subrange(pos + 2, pos + 2 + n) =~= name);
    assert(s.subrange(pos + 2 + n, pos + 10 + n) =~= be64(e.file_size));
}

/// A run of entries' bytes, wherever they stand, read back as those entries.
proof fn lemma_entries_roundtrip(p: Seq<u8>, es: Seq<FileEntryView>, rest: Seq<u8>)
    requires
        entries_bytes(es) is Some,
    ensures
        parse_entries_at(p + entries_bytes(es)->Some_0 + rest, p.len() as int, es.len()) == Some(
            es,
        ),
    decreases es.len(),
{
    if es.len() == 0 {
        assert(es =~= Seq::<FileEntryView>::empty());
    } else {
        let e = es[0];
        let eb = entry_bytes(e)->Some_0;
        let tail = es.drop_first();
        let tb = entries_bytes(tail)->Some_0;
        let s = p + entries_bytes(es)->Some_0 + rest;
        assert(s =~= p + eb + (tb + rest));
        lemma_entry_roundtrip(p, e, tb + rest);
        assert(s =~= (p + eb) + tb + rest);
        lemma_entries_roundtrip(p + eb, tail, rest);
        assert(seq![e] + tail =~= es);
    }
}

/// A file list whose count is its number of entries, and whose entries are
/// consistent, reads back from its payload as itself, whatever follows the
/// payload.
pub proof fn lemma_list_roundtrip(l: ListRespView, rest: Seq<u8>)
    requires
        list_payload(l) is Ok,
        l.file_count as nat == l.entries.len(),
    ensures
        parse_list(list_payload(l)->Ok_0 + rest) == Ok::<ListRespView, ErrorCode>(l),
{
    let eb = entries_bytes(l.entries)->Some_0;
    let s = list_payload(l)->Ok_0 + rest;
    lemma_be32_roundtrip(l.file_count);
    assert(s.subrange(0, 4) =~= be32(l.file_count));
    assert(s =~= be32(l.file_count) + eb + rest);
    lemma_entries_roundtrip(be32(l.file_count), l.entries, rest);
}

/// A whole LIST response reads back on the client as the same header and the
/// same list: the header from its first twelve bytes, the list from the rest.
pub proof fn lemma_list_response_roundtrip(h: ResponseHeaderView, l: ListRespView)
    requires
        h.magic == MAGIC,
        list_payload(l) is Ok,
        l.file_count as nat == l.entries.len(),
    ensures
        framed(response_header_bytes(h), list_payload(l), ErrorCode::ErrorBadResponse) is Ok,
        ({
            let m = framed(response_header_bytes(h), list_payload(l), ErrorCode::ErrorBadResponse)->Ok_0;
            &&& parse_response_header(m.subrange(0, RESPONSE_HEADER_SIZE as int)) == Ok::<
                ResponseHeaderView,
                Error,
            >(h)
            &&& parse_list(m.subrange(RESPONSE_HEADER_SIZE as int, m.len() as int)) == Ok::<
                ListRespView,
                ErrorCode,
            >(l)
        }),
{
    let hb = response_header_bytes(h);
    let body = list_payload(l)->Ok_0;
    let m = hb + body;
    lemma_response_header_roundtrip(h);
    lemma_list_roundtrip(l, Seq::empty());
    assert(body + Seq::<u8>::empty() =~= body);
    assert(m.subrange(0, RESPONSE_HEADER_SIZE as int) =~= hb);
    assert(m.subrange(RESPONSE_HEADER_SIZE as int, m.len() as int) =~= body);
}

/// A download payload that encodes reads back as itself, given the file size
/// its header carries.
pub proof fn lemma_download_roundtrip(d: DownloadRespView)
    requires
        download_payload(d) is Ok,
    ensures
        parse_download(d.payload_size, download_payload(d)->Ok_0) == Ok::<
            DownloadRespView,
            ErrorCode,
        >(d),
{
}

/// What a LIST response's `try_into` produces reads back on the client as
/// the same header and the same list, whenever the list's count is its
/// number of entries.
pub proof fn lemma_list_response_value_roundtrip(r: Response<ListResp>)
    requires
        r.header_view().magic == MAGIC,
        r.content()@.file_count as nat == r.content()@.entries.len(),
        r.wire_bytes() is Ok,
    ensures
        ({
            let m = r.wire_bytes()->Ok_0;
            &&& parse_response_header(m.subrange(0, RESPONSE_HEADER_SIZE as int)) == Ok::<
                ResponseHeaderView,
                Error,
            >(r.header_view())
            &&& parse_list(m.subrange(RESPONSE_HEADER_SIZE as int, m.len() as int)) == Ok::<
                ListRespView,
                ErrorCode,
            >(r.content()@)
        }),
{
    lemma_list_response_roundtrip(r.header_view(), r.content()@);
}

/// What a DOWNLOAD response's `try_into` produces reads back on the client as
/// the same header and the same first chunk, whenever the header announces
/// the file size the payload records (as `Response::<DownloadResp>::new`
/// makes it do).
pub proof fn lemma_download_response_value_roundtrip(r: Response<DownloadResp>)
    requires
        r.header_view().magic == MAGIC,
        r.header_view().payload_len == r.content()@.payload_size,
        r.wire_bytes() is Ok,
    ensures
        ({
            let m = r.wire_bytes()->Ok_0;
            &&& parse_response_header(m.subrange(0, RESPONSE_HEADER_SIZE as int)) == Ok::<
                ResponseHeaderView,
                Error,
            >(r.header_view())
            &&& parse_download(
                r.header_view().payload_len,
                m.subrange(RESPONSE_HEADER_SIZE as int, m.len() as int),
            ) == Ok::<DownloadRespView, ErrorCode>(r.content()@)
        }),
{
    let hb = response_header_bytes(r.header_view());
    let body = download_payload(r.content()@)->Ok_0;
    let m = hb + body;
    lemma_response_header_roundtrip(r.header_view());
    assert(m.subrange(0, RESPONSE_HEADER_SIZE as int) =~= hb);
    assert(m.subrange(RESPONSE_HEADER_SIZE as int, m.len() as int) =~= body);
}

} // verus!
