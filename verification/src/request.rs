//! Requests: a header followed by a body that names a file and, for an
//! upload, carries the first chunk of its data.
use vstd::prelude::*;
use vstd::slice::{slice_subrange, slice_to_vec};
use vstd::string::StringSliceAdditionalSpecFns;
use vstd::utf8::{
    decode_utf8, decode_utf8_encode_utf8, encode_utf8, encode_utf8_decode_utf8,
    encode_utf8_valid_utf8, valid_utf8,
};

use crate::header::{
    lemma_request_header_roundtrip, parse_request_header, request_header_bytes, Error, Opcode,
    RequestHeader, RequestHeaderView, REQUEST_HEADER_SIZE,
};
use crate::text::{is_valid_file_name, valid_file_name};
use crate::utils::{ErrorCode, MAGIC, MAX_CHUNK_SIZE, VERSION};
use crate::wire::{bytes_result, framed, push_bytes, Encode};

verus! {

/// A request: its header and its body.
pub struct Request<T: Encode> {
    header: RequestHeader,
    content: T,
}

/// The body of a LIST request, which has no bytes.
pub struct ListReq;

/// The body of a DOWNLOAD request: the file's name.
pub struct DownloadReq {
    filename_len: u16,
    filename: String,
}

/// The body of a DELETE request: the file's name.
pub struct DeleteReq {
    filename_len: u16,
    filename: String,
}

/// The body of an UPLOAD request: the file's name, the size of the whole
/// file, and its first chunk.
pub struct UploadReq {
    filename_len: u16,
    filename: String,
    payload_size: u64,
    chunk: Vec<u8>,
}

/// The fields of a DOWNLOAD or DELETE body.
pub struct NameReqView {
    pub filename_len: u16,
    pub filename: Seq<char>,
}

/// The fields of an UPLOAD body.
pub struct UploadReqView {
    pub filename_len: u16,
    pub filename: Seq<char>,
    pub payload_size: u64,
    pub chunk: Seq<u8>,
}

impl View for DownloadReq {
    type V = NameReqView;

    closed spec fn view(&self) -> NameReqView {
        NameReqView { filename_len: self.filename_len, filename: self.filename@ }
    }
}

impl View for DeleteReq {
    type V = NameReqView;

    closed spec fn view(&self) -> NameReqView {
        NameReqView { filename_len: self.filename_len, filename: self.filename@ }
    }
}

impl View for UploadReq {
    type V = UploadReqView;

    closed spec fn view(&self) -> UploadReqView {
        UploadReqView {
            filename_len: self.filename_len,
            filename: self.filename@,
            payload_size: self.payload_size,
            chunk: self.chunk@,
        }
    }
}

/// The body of a DOWNLOAD or DELETE request: the file name's UTF-8 bytes.
/// Refused with `UnknownErr` when the recorded length is not theirs, with
/// `ErrorBadRequest` when the name breaks the file-name rules.
pub open spec fn name_body(v: NameReqView) -> Result<Seq<u8>, ErrorCode> {
    if v.filename_len as nat != encode_utf8(v.filename).len() {
        Err(ErrorCode::UnknownErr)
    } else if !valid_file_name(encode_utf8(v.filename)) {
        Err(ErrorCode::ErrorBadRequest)
    } else {
        Ok(encode_utf8(v.filename))
    }
}

/// The body of an UPLOAD request: the file name's UTF-8 bytes, then the
/// chunk. Refused with `UnknownErr` when the recorded name length is wrong,
/// with `ErrorBadRequest` when the name breaks the file-name rules or the
/// chunk is longer than the file or than `MAX_CHUNK_SIZE`.
pub open spec fn upload_body(v: UploadReqView) -> Result<Seq<u8>, ErrorCode> {
    if v.filename_len as nat != encode_utf8(v.filename).len() {
        Err(ErrorCode::UnknownErr)
    } else if !valid_file_name(encode_utf8(v.filename)) {
        Err(ErrorCode::ErrorBadRequest)
    } else if (v.payload_size as nat) < v.chunk.len() || v.chunk.len() > MAX_CHUNK_SIZE {
        Err(ErrorCode::ErrorBadRequest)
    } else {
        Ok(encode_utf8(v.filename) + v.chunk)
    }
}

/// Reading an UPLOAD body, given the lengths that its header announces: the
/// first `filename_len` bytes are the name, which must be UTF-8 and keep the
/// file-name rules; the rest is the first chunk, at most `MAX_CHUNK_SIZE`
/// bytes and no longer than the file. Anything else is `ErrorBadRequest`.
pub open spec fn parse_upload_body(filename_len: u16, payload_len: u64, b: Seq<u8>) -> Result<
    UploadReqView,
    ErrorCode,
> {
    let n = filename_len as int;
    if b.len() < n {
        Err(ErrorCode::ErrorBadRequest)
    } else {
        let name = b.subrange(0, n);
        let chunk = b.subrange(n, b.len() as int);
        if !valid_utf8(name) || !valid_file_name(name) {
            Err(ErrorCode::ErrorBadRequest)
        } else if chunk.len() > MAX_CHUNK_SIZE || (payload_len as nat) < chunk.len() {
            Err(ErrorCode::ErrorBadRequest)
        } else {
            Ok(
                UploadReqView {
                    filename_len,
                    filename: decode_utf8(name),
                    payload_size: payload_len,
                    chunk,
                },
            )
        }
    }
}

/// Reading the body of a DOWNLOAD or DELETE request, given the lengths its
/// header announces: the body is the file name, exactly `filename_len` bytes
/// of UTF-8 that keep the file-name rules, and the request carries no file
/// data. Anything else is `ErrorBadRequest`.
pub open spec fn parse_name_body(filename_len: u16, payload_len: u64, b: Seq<u8>) -> Result<
    NameReqView,
    ErrorCode,
> {
    if payload_len != 0 || b.len() != filename_len as nat {
        Err(ErrorCode::ErrorBadRequest)
    } else if !valid_utf8(b) || !valid_file_name(b) {
        Err(ErrorCode::ErrorBadRequest)
    } else {
        Ok(NameReqView { filename_len, filename: decode_utf8(b) })
    }
}

/// Reads the body of a DOWNLOAD or DELETE request whose header is `header`.
fn read_name_body(header: &RequestHeader, value: &Vec<u8>) -> (r: Result<(u16, String), ErrorCode>)
    ensures
        match r {
            Ok((n, name)) => parse_name_body(header@.filename_len, header@.payload_len, value@)
                == Ok::<NameReqView, ErrorCode>(NameReqView { filename_len: n, filename: name@ }),
            Err(e) => parse_name_body(header@.filename_len, header@.payload_len, value@) == Err::<
                NameReqView,
                ErrorCode,
            >(e),
        },
{
    let filename_len = header.get_filename_len();
    if header.get_payload_len() != 0 || value.len() != filename_len as usize {
        return Err(ErrorCode::ErrorBadRequest);
    }
    let bytes = value.as_slice();
    if !is_valid_file_name(bytes) {
        return Err(ErrorCode::ErrorBadRequest);
    }
    match String::from_utf8(slice_to_vec(bytes)) {
        Ok(name) => Ok((filename_len, name)),
        Err(_) => Err(ErrorCode::ErrorBadRequest),
    }
}

impl DownloadReq {
    /// The name of the file asked for.
    pub fn get_file_name(&self) -> (r: &str)
        ensures
            r@ == self@.filename,
    {
        self.filename.as_str()
    }

    /// Reads the body of a DOWNLOAD request whose header is `header`: the
    /// file name, which must be exactly the announced length, UTF-8, and keep
    /// the file-name rules, with no file data announced. Anything else is
    /// `ErrorBadRequest`.
    pub fn try_from(header: &RequestHeader, value: &Vec<u8>) -> (r: Result<Self, ErrorCode>)
        ensures
            match r {
                Ok(req) => parse_name_body(header@.filename_len, header@.payload_len, value@)
                    == Ok::<NameReqView, ErrorCode>(req@),
                Err(e) => parse_name_body(header@.filename_len, header@.payload_len, value@)
                    == Err::<NameReqView, ErrorCode>(e),
            },
    {
        let (filename_len, filename) = read_name_body(header, value)?;
        Ok(DownloadReq { filename_len, filename })
    }
}

impl DeleteReq {
    /// The name of the file to remove.
    pub fn get_file_name(&self) -> (r: &str)
        ensures
            r@ == self@.filename,
    {
        self.filename.as_str()
    }

    /// Reads the body of a DELETE request whose header is `header`: the file
    /// name, which must be exactly the announced length, UTF-8, and keep the
    /// file-name rules, with no file data announced. Anything else is
    /// `ErrorBadRequest`.
    pub fn try_from(header: &RequestHeader, value: &Vec<u8>) -> (r: Result<Self, ErrorCode>)
        ensures
            match r {
                Ok(req) => parse_name_body(header@.filename_len, header@.payload_len, value@)
                    == Ok::<NameReqView, ErrorCode>(req@),
                Err(e) => parse_name_body(header@.filename_len, header@.payload_len, value@)
                    == Err::<NameReqView, ErrorCode>(e),
            },
    {
        let (filename_len, filename) = read_name_body(header, value)?;
        Ok(DeleteReq { filename_len, filename })
    }
}

impl Encode for ListReq {
    open spec fn encoded(&self) -> Result<Seq<u8>, ErrorCode> {
        Err(ErrorCode::Empty)
    }

    fn encode(self) -> (r: Result<Vec<u8>, ErrorCode>) {
        Err(ErrorCode::Empty)
    }
}

/// The UTF-8 bytes of a name, checked against its recorded length.
fn name_bytes(filename_len: u16, filename: &String) -> (r: Result<Vec<u8>, ErrorCode>)
    ensures
        bytes_result(r) == name_body(NameReqView { filename_len, filename: filename@ }),
{
    let name = filename.as_str().as_bytes();
    if filename_len as usize != name.len() {
        return Err(ErrorCode::UnknownErr);
    }
    if !is_valid_file_name(name) {
        return Err(ErrorCode::ErrorBadRequest);
    }
    let mut buffer = Vec::new();
    push_bytes(&mut buffer, name);
    assert(buffer@ =~= encode_utf8(filename@));
    Ok(buffer)
}

impl Encode for DownloadReq {
    open spec fn encoded(&self) -> Result<Seq<u8>, ErrorCode> {
        name_body(self@)
    }

    fn encode(self) -> (r: Result<Vec<u8>, ErrorCode>) {
        name_bytes(self.filename_len, &self.filename)
    }
}

impl Encode for DeleteReq {
    open spec fn encoded(&self) -> Result<Seq<u8>, ErrorCode> {
        name_body(self@)
    }

    fn encode(self) -> (r: Result<Vec<u8>, ErrorCode>) {
        name_bytes(self.filename_len, &self.filename)
    }
}

impl Encode for UploadReq {
    open spec fn encoded(&self) -> Result<Seq<u8>, ErrorCode> {
        upload_body(self@)
    }

    fn encode(self) -> (r: Result<Vec<u8>, ErrorCode>) {
        let name = self.filename.as_str().as_bytes();
        if self.filename_len as usize != name.len() {
            return Err(ErrorCode::UnknownErr);
        }
        if !is_valid_file_name(name) {
            return Err(ErrorCode::ErrorBadRequest);
        }
        if self.payload_size < self.chunk.len() as u64 || self.chunk.len() > MAX_CHUNK_SIZE {
            return Err(ErrorCode::ErrorBadRequest);
        }
        let mut buffer = Vec::new();
        push_bytes(&mut buffer, name);
        push_bytes(&mut buffer, self.chunk.as_slice());
        assert(buffer@ =~= encode_utf8(self.filename@) + self.chunk@);
        Ok(buffer)
    }
}

impl UploadReq {
    /// The name of the file being uploaded.
    pub fn get_file_name(&self) -> (r: &str)
        ensures
            r@ == self@.filename,
    {
        self.filename.as_str()
    }

    /// The first chunk of the file's data.
    pub fn get_chunk(&self) -> (r: &[u8])
        ensures
            r@ == self@.chunk,
    {
        self.chunk.as_slice()
    }

    /// The size of the whole file.
    pub fn get_payload_size(&self) -> (r: u64)
        ensures
            r == self@.payload_size,
    {
        self.payload_size
    }

    /// Reads the body of an UPLOAD request whose header is `header`: the
    /// name takes the first `filename_len` bytes, the first chunk the rest.
    /// Refused with `ErrorBadRequest` when the body is shorter than the name,
    /// the name is not UTF-8 or breaks the file-name rules, or the chunk is
    /// longer than `MAX_CHUNK_SIZE` or than the file.
    pub fn try_from(header: &RequestHeader, value: &Vec<u8>) -> (r: Result<Self, ErrorCode>)
        ensures
            match r {
                Ok(req) => parse_upload_body(header@.filename_len, header@.payload_len, value@)
                    == Ok::<UploadReqView, ErrorCode>(req@),
                Err(e) => parse_upload_body(header@.filename_len, header@.payload_len, value@)
                    == Err::<UploadReqView, ErrorCode>(e),
            },
    {
        let filename_len = header.get_filename_len();
        let payload_size = header.get_payload_len();
        let name_end = filename_len as usize;
        if value.len() < name_end {
            return Err(ErrorCode::ErrorBadRequest);
        }
        let bytes = value.as_slice();
        let name_bytes = slice_subrange(bytes, 0, name_end);
        let chunk_bytes = slice_subrange(bytes, name_end, value.len());
        if !is_valid_file_name(name_bytes) {
            return Err(ErrorCode::ErrorBadRequest);
        }
        let filename = match String::from_utf8(slice_to_vec(name_bytes)) {
            Ok(name) => name,
            Err(_) => {
                return Err(ErrorCode::ErrorBadRequest);
            },
        };
        if chunk_bytes.len() > MAX_CHUNK_SIZE || payload_size < chunk_bytes.len() as u64 {
            return Err(ErrorCode::ErrorBadRequest);
        }
        Ok(UploadReq { filename_len, filename, payload_size, chunk: slice_to_vec(chunk_bytes) })
    }
}

impl<T: Encode> Request<T> {
    /// The header of this request.
    pub closed spec fn header_view(&self) -> RequestHeaderView {
        self.header@
    }

    /// The body of this request.
    pub closed spec fn content(&self) -> T {
        self.content
    }

    /// The whole request on the wire: header bytes, then the body's bytes. A
    /// body that cannot be encoded (other than one with no bytes) fails the
    /// request with `ErrorBadRequest`.
    pub open spec fn wire_bytes(&self) -> Result<Seq<u8>, ErrorCode> {
        framed(
            request_header_bytes(self.header_view()),
            self.content().encoded(),
            ErrorCode::ErrorBadRequest,
        )
    }

    /// The bytes of this request.
    pub fn try_into(self) -> (r: Result<Vec<u8>, ErrorCode>)
        ensures
            bytes_result(r) == self.wire_bytes(),
    {
        let mut buffer = Vec::new();
        let header_bytes = self.header.into_bytes();
        let body_bytes = match self.content.encode() {
            Ok(bytes) => bytes,
            Err(ErrorCode::Empty) => Vec::new(),
            Err(_) => {
                return Err(ErrorCode::ErrorBadRequest);
            },
        };
        push_bytes(&mut buffer, header_bytes.as_slice());
        push_bytes(&mut buffer, body_bytes.as_slice());
        Ok(buffer)
    }
}

impl Request<ListReq> {
    /// A LIST request: no file name, no payload.
    pub fn new() -> (r: Self)
        ensures
            r.header_view() == (RequestHeaderView {
                magic: MAGIC,
                version: VERSION,
                opcode: Opcode::LIST,
                filename_len: 0,
                payload_len: 0,
            }),
            r.wire_bytes() == Ok::<Seq<u8>, ErrorCode>(request_header_bytes(r.header_view())),
    {
        Request { header: RequestHeader::new(Opcode::LIST, 0, 0), content: ListReq }
    }
}

impl Request<DownloadReq> {
    /// A DOWNLOAD request for the named file.
    pub fn new(filename: String, filename_len: u16) -> (r: Self)
        ensures
            r.header_view() == (RequestHeaderView {
                magic: MAGIC,
                version: VERSION,
                opcode: Opcode::DOWNLOAD,
                filename_len,
                payload_len: 0,
            }),
            r.content()@ == (NameReqView { filename_len, filename: filename@ }),
    {
        Request {
            header: RequestHeader::new(Opcode::DOWNLOAD, filename_len, 0),
            content: DownloadReq { filename_len, filename },
        }
    }
}

impl Request<DeleteReq> {
    /// A DELETE request for the named file.
    pub fn new(filename: String, filename_len: u16) -> (r: Self)
        ensures
            r.header_view() == (RequestHeaderView {
                magic: MAGIC,
                version: VERSION,
                opcode: Opcode::DELETE,
                filename_len,
                payload_len: 0,
            }),
            r.content()@ == (NameReqView { filename_len, filename: filename@ }),
    {
        Request {
            header: RequestHeader::new(Opcode::DELETE, filename_len, 0),
            content: DeleteReq { filename_len, filename },
        }
    }
}

impl Request<UploadReq> {
    /// An UPLOAD request for a file of `payload_size` bytes, carrying its
    /// first chunk.
    pub fn new(filename: String, filename_len: u16, payload_size: u64, chunk: Vec<u8>) -> (r: Self)
        ensures
            r.header_view() == (RequestHeaderView {
                magic: MAGIC,
                version: VERSION,
                opcode: Opcode::UPLOAD,
                filename_len,
                payload_len: payload_size,
            }),
            r.content()@ == (UploadReqView {
                filename_len,
                filename: filename@,
                payload_size,
                chunk: chunk@,
            }),
    {
        Request {
            header: RequestHeader::new(Opcode::UPLOAD, filename_len, payload_size),
            content: UploadReq { filename_len, filename, payload_size, chunk },
        }
    }
}

/// An UPLOAD body that encodes reads back as itself given the lengths its
/// header carries.
pub proof fn lemma_upload_body_roundtrip(v: UploadReqView)
    requires
        upload_body(v) is Ok,
    ensures
        parse_upload_body(v.filename_len, v.payload_size, upload_body(v)->Ok_0) == Ok::<
            UploadReqView,
            ErrorCode,
        >(v),
{
    let name = encode_utf8(v.filename);
    let b = name + v.chunk;
    encode_utf8_valid_utf8(v.filename);
    encode_utf8_decode_utf8(v.filename);
    assert(b.subrange(0, name.len() as int) =~= name);
    assert(b.subrange(name.len() as int, b.len() as int) =~= v.chunk);
}

/// A whole UPLOAD request, as a client sends it, reads back on the server as
/// the same header and the same body: the header from its first fourteen
/// bytes, the body from the rest.
pub proof fn lemma_upload_request_roundtrip(h: RequestHeaderView, v: UploadReqView)
    requires
        h.magic == MAGIC,
        h.opcode == Opcode::UPLOAD,
        h.filename_len == v.filename_len,
        h.payload_len == v.payload_size,
        upload_body(v) is Ok,
    ensures
        framed(request_header_bytes(h), upload_body(v), ErrorCode::ErrorBadRequest) is Ok,
        ({
            let m = framed(request_header_bytes(h), upload_body(v), ErrorCode::ErrorBadRequest)->Ok_0;
            &&& parse_request_header(m.subrange(0, REQUEST_HEADER_SIZE as int)) == Ok::<
                RequestHeaderView,
                Error,
            >(h)
            &&& parse_upload_body(
                h.filename_len,
                h.payload_len,
                m.subrange(REQUEST_HEADER_SIZE as int, m.len() as int),
            ) == Ok::<UploadReqView, ErrorCode>(v)
        }),
{
    let hb = request_header_bytes(h);
    let body = upload_body(v)->Ok_0;
    let m = hb + body;
    lemma_request_header_roundtrip(h);
    lemma_upload_body_roundtrip(v);
    assert(m.subrange(0, REQUEST_HEADER_SIZE as int) =~= hb);
    assert(m.subrange(REQUEST_HEADER_SIZE as int, m.len() as int) =~= body);
}

/// Every UPLOAD body that reads names a file by a name that keeps the
/// file-name rules: no `/`, `\`, NUL or `..`, at most 255 bytes.
pub proof fn lemma_parsed_upload_name_valid(filename_len: u16, payload_len: u64, b: Seq<u8>)
    requires
        parse_upload_body(filename_len, payload_len, b) is Ok,
    ensures
        valid_file_name(encode_utf8(parse_upload_body(filename_len, payload_len, b)->Ok_0.filename)),
        encode_utf8(parse_upload_body(filename_len, payload_len, b)->Ok_0.filename).len()
            == filename_len,
{
    decode_utf8_encode_utf8(b.subrange(0, filename_len as int));
}

/// What an UPLOAD request's `try_into` produces reads back on the server as
/// the same header and the same body, whenever the header announces the
/// body's own name length and file size (as `Request::<UploadReq>::new`
/// makes it do).
pub proof fn lemma_upload_request_value_roundtrip(r: Request<UploadReq>)
    requires
        r.header_view().magic == MAGIC,
        r.header_view().opcode == Opcode::UPLOAD,
        r.header_view().filename_len == r.content()@.filename_len,
        r.header_view().payload_len == r.content()@.payload_size,
        r.wire_bytes() is Ok,
    ensures
        ({
            let m = r.wire_bytes()->Ok_0;
            &&& parse_request_header(m.subrange(0, REQUEST_HEADER_SIZE as int)) == Ok::<
                RequestHeaderView,
                Error,
            >(r.header_view())
            &&& parse_upload_body(
                r.header_view().filename_len,
                r.header_view().payload_len,
                m.subrange(REQUEST_HEADER_SIZE as int, m.len() as int),
            ) == Ok::<UploadReqView, ErrorCode>(r.content()@)
        }),
{
    lemma_upload_request_roundtrip(r.header_view(), r.content()@);
}

/// A DOWNLOAD or DELETE body that encodes reads back as itself, given the
/// name length its header carries and no file data.
pub proof fn lemma_name_body_roundtrip(v: NameReqView)
    requires
        name_body(v) is Ok,
    ensures
        parse_name_body(v.filename_len, 0, name_body(v)->Ok_0) == Ok::<NameReqView, ErrorCode>(v),
{
    encode_utf8_valid_utf8(v.filename);
    encode_utf8_decode_utf8(v.filename);
}

/// A whole DOWNLOAD or DELETE request splits back into its header (from the
/// first fourteen bytes) and its body (from the rest).
pub proof fn lemma_name_request_roundtrip(h: RequestHeaderView, v: NameReqView)
    requires
        h.magic == MAGIC,
        h.filename_len == v.filename_len,
        h.payload_len == 0,
        name_body(v) is Ok,
    ensures
        framed(request_header_bytes(h), name_body(v), ErrorCode::ErrorBadRequest) is Ok,
        ({
            let m = framed(request_header_bytes(h), name_body(v), ErrorCode::ErrorBadRequest)->Ok_0;
            &&& parse_request_header(m.subrange(0, REQUEST_HEADER_SIZE as int)) == Ok::<
                RequestHeaderView,
                Error,
            >(h)
            &&& parse_name_body(
                h.filename_len,
                h.payload_len,
                m.subrange(REQUEST_HEADER_SIZE as int, m.len() as int),
            ) == Ok::<NameReqView, ErrorCode>(v)
        }),
{
    let hb = request_header_bytes(h);
    let body = name_body(v)->Ok_0;
    let m = hb + body;
    lemma_request_header_roundtrip(h);
    lemma_name_body_roundtrip(v);
    assert(m.subrange(0, REQUEST_HEADER_SIZE as int) =~= hb);
    assert(m.subrange(REQUEST_HEADER_SIZE as int, m.len() as int) =~= body);
}

/// What a DOWNLOAD request's `try_into` produces reads back on the server as
/// the same header and the same file name, when the header announces the
/// name's own length (as `Request::<DownloadReq>::new` makes it do).
pub proof fn lemma_download_request_value_roundtrip(r: Request<DownloadReq>)
    requires
        r.header_view().magic == MAGIC,
        r.header_view().filename_len == r.content()@.filename_len,
        r.header_view().payload_len == 0,
        r.wire_bytes() is Ok,
    ensures
        ({
            let m = r.wire_bytes()->Ok_0;
            &&& parse_request_header(m.subrange(0, REQUEST_HEADER_SIZE as int)) == Ok::<
                RequestHeaderView,
                Error,
            >(r.header_view())
            &&& parse_name_body(
                r.header_view().filename_len,
                r.header_view().payload_len,
                m.subrange(REQUEST_HEADER_SIZE as int, m.len() as int),
            ) == Ok::<NameReqView, ErrorCode>(r.content()@)
        }),
{
    lemma_name_request_roundtrip(r.header_view(), r.content()@);
}

/// What a DELETE request's `try_into` produces reads back on the server as
/// the same header and the same file name, when the header announces the
/// name's own length (as `Request::<DeleteReq>::new` makes it do).
pub proof fn lemma_delete_request_value_roundtrip(r: Request<DeleteReq>)
    requires
        r.header_view().magic == MAGIC,
        r.header_view().filename_len == r.content()@.filename_len,
        r.header_view().payload_len == 0,
        r.wire_bytes() is Ok,
    ensures
        ({
            let m = r.wire_bytes()->Ok_0;
            &&& parse_request_header(m.subrange(0, REQUEST_HEADER_SIZE as int)) == Ok::<
                RequestHeaderView,
                Error,
            >(r.header_view())
            &&& parse_name_body(
                r.header_view().filename_len,
                r.header_view().payload_len,
                m.subrange(REQUEST_HEADER_SIZE as int, m.len() as int),
            ) == Ok::<NameReqView, ErrorCode>(r.content()@)
        }),
{
    lemma_name_request_roundtrip(r.header_view(), r.content()@);
}

} // verus!
