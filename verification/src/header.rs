//! The fixed-size headers that open every request and every response.
use vstd::prelude::*;

use crate::utils::{ErrorCode, MAGIC, VERSION};
use crate::wire::{
    be16, be64, from_be16, from_be64, lemma_be16_roundtrip, lemma_be64_roundtrip,
    lemma_from_be16_roundtrip, lemma_from_be64_roundtrip, read_be16, read_be64,
};

verus! {

/// Size in bytes of a request header.
pub const REQUEST_HEADER_SIZE: usize = 14;

/// Size in bytes of a response header.
pub const RESPONSE_HEADER_SIZE: usize = 12;

/// The operation a request asks for.
#[allow(non_camel_case_types)]
#[derive(Debug, Clone, Copy, PartialEq, Eq, Structural)]
pub enum Opcode {
    LIST,
    UPLOAD,
    DOWNLOAD,
    DELETE,
}

impl Opcode {
    /// The byte that stands for this opcode on the wire.
    pub open spec fn wire_byte(self) -> u8 {
        match self {
            Opcode::LIST => 0x1,
            Opcode::UPLOAD => 0x2,
            Opcode::DOWNLOAD => 0x3,
            Opcode::DELETE => 0x4,
        }
    }

    /// The opcode that a byte stands for, if any.
    pub open spec fn from_wire_byte(b: u8) -> Option<Opcode> {
        if b == 0x1 {
            Some(Opcode::LIST)
        } else if b == 0x2 {
            Some(Opcode::UPLOAD)
        } else if b == 0x3 {
            Some(Opcode::DOWNLOAD)
        } else if b == 0x4 {
            Some(Opcode::DELETE)
        } else {
            None
        }
    }

    /// The byte that stands for this opcode on the wire.
    pub fn to_byte(self) -> (b: u8)
        ensures
            b == self.wire_byte(),
    {
        match self {
            Opcode::LIST => 0x1,
            Opcode::UPLOAD => 0x2,
            Opcode::DOWNLOAD => 0x3,
            Opcode::DELETE => 0x4,
        }
    }

    /// The opcode that a byte stands for, if any.
    pub fn from_byte(b: u8) -> (r: Option<Opcode>)
        ensures
            r == Opcode::from_wire_byte(b),
    {
        match b {
            0x1 => Some(Opcode::LIST),
            0x2 => Some(Opcode::UPLOAD),
            0x3 => Some(Opcode::DOWNLOAD),
            0x4 => Some(Opcode::DELETE),
            _ => None,
        }
    }
}

/// The outcome that a response reports.
#[derive(Debug, Clone, Copy, PartialEq, Eq, Structural)]
pub enum StatusCode {
    Success,
    ErrorNotFound,
    ErrorExists,
    ErrorIo,
    ErrorBadRequest,
}

impl StatusCode {
    /// The byte that stands for this status on the wire.
    pub open spec fn wire_byte(self) -> u8 {
        match self {
            StatusCode::Success => 0x0,
            StatusCode::ErrorNotFound => 0x1,
            StatusCode::ErrorExists => 0x2,
            StatusCode::ErrorIo => 0x3,
            StatusCode::ErrorBadRequest => 0xff,
        }
    }

    /// The status that a byte stands for, if any.
    pub open spec fn from_wire_byte(b: u8) -> Option<StatusCode> {
        if b == 0x0 {
            Some(StatusCode::Success)
        } else if b == 0x1 {
            Some(StatusCode::ErrorNotFound)
        } else if b == 0x2 {
            Some(StatusCode::ErrorExists)
        } else if b == 0x3 {
            Some(StatusCode::ErrorIo)
        } else if b == 0xff {
            Some(StatusCode::ErrorBadRequest)
        } else {
            None
        }
    }

    /// The byte that stands for this status on the wire.
    pub fn to_byte(self) -> (b: u8)
        ensures
            b == self.wire_byte(),
    {
        match self {
            StatusCode::Success => 0x0,
            StatusCode::ErrorNotFound => 0x1,
            StatusCode::ErrorExists => 0x2,
            StatusCode::ErrorIo => 0x3,
            StatusCode::ErrorBadRequest => 0xff,
        }
    }

    /// The status that a byte stands for, if any.
    pub fn from_byte(b: u8) -> (r: Option<StatusCode>)
        ensures
            r == StatusCode::from_wire_byte(b),
    {
        match b {
            0x0 => Some(StatusCode::Success),
            0x1 => Some(StatusCode::ErrorNotFound),
            0x2 => Some(StatusCode::ErrorExists),
            0x3 => Some(StatusCode::ErrorIo),
            0xff => Some(StatusCode::ErrorBadRequest),
            _ => None,
        }
    }
}

/// Why a header could not be read.
#[derive(Debug, Clone, Copy, PartialEq, Eq, Structural)]
pub enum Error {
    BadRequest,
    BadResponse,
}

/// The error code that reports a header error.
pub open spec fn error_code_of(e: Error) -> ErrorCode {
    match e {
        Error::BadRequest => ErrorCode::ErrorBadRequest,
        Error::BadResponse => ErrorCode::ErrorBadResponse,
    }
}

impl From<Error> for ErrorCode {
    fn from(e: Error) -> (r: ErrorCode) {
        match e {
            Error::BadRequest => ErrorCode::ErrorBadRequest,
            Error::BadResponse => ErrorCode::ErrorBadResponse,
        }
    }
}

impl vstd::std_specs::convert::FromSpecImpl<Error> for ErrorCode {
    open spec fn obeys_from_spec() -> bool {
        true
    }

    open spec fn from_spec(e: Error) -> ErrorCode {
        error_code_of(e)
    }
}

/// The fields of a request header.
pub struct RequestHeaderView {
    pub magic: u16,
    pub version: u8,
    pub opcode: Opcode,
    pub filename_len: u16,
    pub payload_len: u64,
}

/// The fields of a response header.
pub struct ResponseHeaderView {
    pub magic: u16,
    pub version: u8,
    pub status_code: StatusCode,
    pub payload_len: u64,
}

/// The header of a request: which operation, and how many bytes of file name
/// and of file data follow it.
pub struct RequestHeader {
    magic: u16,
    version: u8,
    opcode: Opcode,
    filename_len: u16,
    payload_len: u64,
}

/// The header of a response: its status, and how many payload bytes follow it.
pub struct ResponseHeader {
    magic: u16,
    version: u8,
    status_code: StatusCode,
    payload_len: u64,
}

impl View for RequestHeader {
    type V = RequestHeaderView;

    closed spec fn view(&self) -> RequestHeaderView {
        RequestHeaderView {
            magic: self.magic,
            version: self.version,
            opcode: self.opcode,
            filename_len: self.filename_len,
            payload_len: self.payload_len,
        }
    }
}

impl View for ResponseHeader {
    type V = ResponseHeaderView;

    closed spec fn view(&self) -> ResponseHeaderView {
        ResponseHeaderView {
            magic: self.magic,
            version: self.version,
            status_code: self.status_code,
            payload_len: self.payload_len,
        }
    }
}

/// The fourteen bytes of a request header: magic, version, opcode, file-name
/// length and payload length, integers big-endian.
pub open spec fn request_header_bytes(h: RequestHeaderView) -> Seq<u8> {
    be16(h.magic) + seq![h.version, h.opcode.wire_byte()] + be16(h.filename_len) + be64(
        h.payload_len,
    )
}

/// The twelve bytes of a response header: magic, version, status and payload
/// length, integers big-endian.
pub open spec fn response_header_bytes(h: ResponseHeaderView) -> Seq<u8> {
    be16(h.magic) + seq![h.version, h.status_code.wire_byte()] + be64(h.payload_len)
}

/// Reading a request header from its fourteen bytes: refused with `BadRequest`
/// when the magic is wrong or the opcode byte names no operation.
pub open spec fn parse_request_header(b: Seq<u8>) -> Result<RequestHeaderView, Error> {
    let magic = from_be16(b[0], b[1]);
    if magic != MAGIC {
        Err(Error::BadRequest)
    } else {
        match Opcode::from_wire_byte(b[3]) {
            None => Err(Error::BadRequest),
            Some(opcode) => Ok(
                RequestHeaderView {
                    magic,
                    version: b[2],
                    opcode,
                    filename_len: from_be16(b[4], b[5]),
                    payload_len: from_be64(b.subrange(6, 14)),
                },
            ),
        }
    }
}

/// Reading a response header from its twelve bytes: refused with `BadRequest`
/// when the magic is wrong, with `BadResponse` when the status byte names no
/// status.
pub open spec fn parse_response_header(b: Seq<u8>) -> Result<ResponseHeaderView, Error> {
    let magic = from_be16(b[0], b[1]);
    if magic != MAGIC {
        Err(Error::BadRequest)
    } else {
        match StatusCode::from_wire_byte(b[3]) {
            None => Err(Error::BadResponse),
            Some(status_code) => Ok(
                ResponseHeaderView {
                    magic,
                    version: b[2],
                    status_code,
                    payload_len: from_be64(b.subrange(4, 12)),
                },
            ),
        }
    }
}

impl RequestHeader {
    /// A header of this protocol's magic and version.
    pub fn new(opcode: Opcode, filename_len: u16, payload_len: u64) -> (h: Self)
        ensures
            h@ == (RequestHeaderView {
                magic: MAGIC,
                version: VERSION,
                opcode,
                filename_len,
                payload_len,
            }),
    {
        RequestHeader { magic: MAGIC, version: VERSION, opcode, filename_len, payload_len }
    }

    pub fn get_magic(&self) -> (r: u16)
        ensures
            r == self@.magic,
    {
        self.magic
    }

    pub fn get_version(&self) -> (r: u8)
        ensures
            r == self@.version,
    {
        self.version
    }

    pub fn get_opcode(&self) -> (r: Opcode)
        ensures
            r == self@.opcode,
    {
        self.opcode
    }

    pub fn get_filename_len(&self) -> (r: u16)
        ensures
            r == self@.filename_len,
    {
        self.filename_len
    }

    pub fn get_payload_len(&self) -> (r: u64)
        ensures
            r == self@.payload_len,
    {
        self.payload_len
    }

    /// The wire bytes of this header.
    pub fn into_bytes(self) -> (b: [u8; 14])
        ensures
            b@ == request_header_bytes(self@),
    {
        let magic_hi = ((self.magic >> 8u16) & 0xffu16) as u8;
        let magic_lo = (self.magic & 0xffu16) as u8;
        let name_hi = ((self.filename_len >> 8u16) & 0xffu16) as u8;
        let name_lo = (self.filename_len & 0xffu16) as u8;
        let p = self.payload_len;
        let buffer: [u8; 14] = [
            magic_hi,
            magic_lo,
            self.version,
            self.opcode.to_byte(),
            name_hi,
            name_lo,
            ((p >> 56u64) & 0xffu64) as u8,
            ((p >> 48u64) & 0xffu64) as u8,
            ((p >> 40u64) & 0xffu64) as u8,
            ((p >> 32u64) & 0xffu64) as u8,
            ((p >> 24u64) & 0xffu64) as u8,
            ((p >> 16u64) & 0xffu64) as u8,
            ((p >> 8u64) & 0xffu64) as u8,
            (p & 0xffu64) as u8,
        ];
        assert(buffer@ =~= request_header_bytes(self@));
        buffer
    }

    /// Reads a request header from its wire bytes. Refused with `BadRequest`
    /// when the magic is not this protocol's or the opcode byte names no
    /// operation; the version byte is taken as it is.
    pub fn try_from(buffer: &[u8; 14]) -> (r: Result<Self, Error>)
        ensures
            match r {
                Ok(h) => parse_request_header(buffer@) == Ok::<RequestHeaderView, Error>(h@),
                Err(e) => parse_request_header(buffer@) == Err::<RequestHeaderView, Error>(e),
            },
    {
        let bytes = buffer.as_slice();
        let magic = read_be16(bytes, 0);
        if magic != MAGIC {
            return Err(Error::BadRequest);
        }
        let version = buffer[2];
        let opcode_byte = buffer[3];
        let filename_len = read_be16(bytes, 4);
        let payload_len = read_be64(bytes, 6);
        let opcode = match Opcode::from_byte(opcode_byte) {
            Some(op) => op,
            None => {
                return Err(Error::BadRequest);
            },
        };
        Ok(RequestHeader { magic, version, opcode, filename_len, payload_len })
    }
}

impl ResponseHeader {
    /// A header of this protocol's magic and version.
    pub fn new(status_code: StatusCode, payload_len: u64) -> (h: Self)
        ensures
            h@ == (ResponseHeaderView { magic: MAGIC, version: VERSION, status_code, payload_len }),
    {
        ResponseHeader { magic: MAGIC, version: VERSION, status_code, payload_len }
    }

    pub fn get_magic(&self) -> (r: u16)
        ensures
            r == self@.magic,
    {
        self.magic
    }

    pub fn get_version(&self) -> (r: u8)
        ensures
            r == self@.version,
    {
        self.version
    }

    pub fn get_status_code(&self) -> (r: StatusCode)
        ensures
            r == self@.status_code,
    {
        self.status_code
    }

    pub fn get_payload_len(&self) -> (r: u64)
        ensures
            r == self@.payload_len,
    {
        self.payload_len
    }

    /// The wire bytes of this header.
    pub fn into_bytes(self) -> (b: [u8; 12])
        ensures
            b@ == response_header_bytes(self@),
    {
        let magic_hi = ((self.magic >> 8u16) & 0xffu16) as u8;
        let magic_lo = (self.magic & 0xffu16) as u8;
        let p = self.payload_len;
        let buffer: [u8; 12] = [
            magic_hi,
            magic_lo,
            self.version,
            self.status_code.to_byte(),
            ((p >> 56u64) & 0xffu64) as u8,
            ((p >> 48u64) & 0xffu64) as u8,
            ((p >> 40u64) & 0xffu64) as u8,
            ((p >> 32u64) & 0xffu64) as u8,
            ((p >> 24u64) & 0xffu64) as u8,
            ((p >> 16u64) & 0xffu64) as u8,
            ((p >> 8u64) & 0xffu64) as u8,
            (p & 0xffu64) as u8,
        ];
        assert(buffer@ =~= response_header_bytes(self@));
        buffer
    }

    /// Reads a response header from its wire bytes. Refused with `BadRequest`
    /// when the magic is not this protocol's, with `BadResponse` when the
    /// status byte names no status; the version byte is taken as it is.
    pub fn try_from(buffer: &[u8; 12]) -> (r: Result<Self, Error>)
        ensures
            match r {
                Ok(h) => parse_response_header(buffer@) == Ok::<ResponseHeaderView, Error>(h@),
                Err(e) => parse_response_header(buffer@) == Err::<ResponseHeaderView, Error>(e),
            },
    {
        let bytes = buffer.as_slice();
        let magic = read_be16(bytes, 0);
        if magic != MAGIC {
            return Err(Error::BadRequest);
        }
        let version = buffer[2];
        let status_code_byte = buffer[3];
        let payload_len = read_be64(bytes, 4);
        let status_code = match StatusCode::from_byte(status_code_byte) {
            Some(s) => s,
            None => {
                return Err(Error::BadResponse);
            },
        };
        Ok(ResponseHeader { magic, version, status_code, payload_len })
    }
}

/// A request header of this protocol's magic reads back, from its bytes, as
/// itself.
pub proof fn lemma_request_header_roundtrip(h: RequestHeaderView)
    requires
        h.magic == MAGIC,
    ensures
        request_header_bytes(h).len() == REQUEST_HEADER_SIZE,
        parse_request_header(request_header_bytes(h)) == Ok::<RequestHeaderView, Error>(h),
{
    let b = request_header_bytes(h);
    lemma_be16_roundtrip(h.magic);
    lemma_be16_roundtrip(h.filename_len);
    lemma_be64_roundtrip(h.payload_len);
    assert(b.subrange(6, 14) =~= be64(h.payload_len));
    assert(Opcode::from_wire_byte(h.opcode.wire_byte()) == Some(h.opcode));
}

/// Fourteen bytes that read as a request header are exactly that header's
/// bytes: nothing in them is lost or ignored.
pub proof fn lemma_request_header_bytes_determined(b: Seq<u8>)
    requires
        b.len() == REQUEST_HEADER_SIZE,
        parse_request_header(b) is Ok,
    ensures
        request_header_bytes(parse_request_header(b)->Ok_0) == b,
{
    let h = parse_request_header(b)->Ok_0;
    lemma_from_be16_roundtrip(b[0], b[1]);
    lemma_from_be16_roundtrip(b[4], b[5]);
    lemma_from_be64_roundtrip(b.subrange(6, 14));
    assert(request_header_bytes(h) =~= b);
}

/// A response header of this protocol's magic reads back, from its bytes, as
/// itself.
pub proof fn lemma_response_header_roundtrip(h: ResponseHeaderView)
    requires
        h.magic == MAGIC,
    ensures
        response_header_bytes(h).len() == RESPONSE_HEADER_SIZE,
        parse_response_header(response_header_bytes(h)) == Ok::<ResponseHeaderView, Error>(h),
{
    let b = response_header_bytes(h);
    lemma_be16_roundtrip(h.magic);
    lemma_be64_roundtrip(h.payload_len);
    assert(b.subrange(4, 12) =~= be64(h.payload_len));
    assert(StatusCode::from_wire_byte(h.status_code.wire_byte()) == Some(h.status_code));
}

/// Twelve bytes that read as a response header are exactly that header's
/// bytes.
pub proof fn lemma_response_header_bytes_determined(b: Seq<u8>)
    requires
        b.len() == RESPONSE_HEADER_SIZE,
        parse_response_header(b) is Ok,
    ensures
        response_header_bytes(parse_response_header(b)->Ok_0) == b,
{
    let h = parse_response_header(b)->Ok_0;
    lemma_from_be16_roundtrip(b[0], b[1]);
    lemma_from_be64_roundtrip(b.subrange(4, 12));
    assert(response_header_bytes(h) =~= b);
}

} // verus!
