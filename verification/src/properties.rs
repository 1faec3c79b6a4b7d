//! What the library's operations are for, stated over their inputs and
//! results in plain terms (numbers, bytes, characters) rather than through
//! the spec functions the contracts use, and proved against those contracts.
use vstd::prelude::*;

use vstd::utf8::{decode_utf8_encode_utf8, encode_utf8, valid_utf8};

use crate::display::{decimal, digit_char, entry_text};
use crate::header::{
    parse_request_header, parse_response_header, request_header_bytes, response_header_bytes,
    Error, Opcode, RequestHeaderView, ResponseHeaderView, StatusCode,
};
use crate::request::{parse_name_body, parse_upload_body, DeleteReq, DownloadReq, UploadReq};
use crate::response::{
    entries_bytes, entry_bytes, list_payload, parse_download, parse_entries_at, parse_list,
    DownloadResp, FileEntryView, ListRespView, Response,
};
use crate::text::valid_file_name;
use crate::transfer::chunk_len_of;
use crate::utils::{status_of, ErrorCode, MAX_CHUNK_SIZE};
use crate::wire::{be16, be32, be64, framed, from_be16, from_be32, from_be64, Encode};

verus! {

/// The number that a run of bytes writes in base 256, most significant
/// byte first.
pub open spec fn big_endian_value(s: Seq<u8>) -> nat
    decreases s.len(),
{
    if s.len() == 0 {
        0
    } else {
        big_endian_value(s.drop_last()) * 256 + s.last() as nat
    }
}

proof fn lemma_big_endian_value_2(s: Seq<u8>)
    requires
        s.len() == 2,
    ensures
        big_endian_value(s) == s[0] as nat * 256 + s[1] as nat,
{
    reveal_with_fuel(big_endian_value, 3);
    assert(s.drop_last().drop_last().len() == 0);
    assert(s.drop_last().last() == s[0]);
}

proof fn lemma_big_endian_value_4(s: Seq<u8>)
    requires
        s.len() == 4,
    ensures
        big_endian_value(s) == ((s[0] as nat * 256 + s[1] as nat) * 256 + s[2] as nat) * 256
            + s[3] as nat,
{
    reveal_with_fuel(big_endian_value, 3);
    lemma_big_endian_value_2(s.drop_last().drop_last());
    assert(s.drop_last().drop_last()[0] == s[0]);
    assert(s.drop_last().drop_last()[1] == s[1]);
    assert(s.drop_last().last() == s[2]);
}

proof fn lemma_big_endian_value_8(s: Seq<u8>)
    requires
        s.len() == 8,
    ensures
        big_endian_value(s) == ((((((s[0] as nat * 256 + s[1] as nat) * 256 + s[2] as nat) * 256
            + s[3] as nat) * 256 + s[4] as nat) * 256 + s[5] as nat) * 256 + s[6] as nat) * 256
            + s[7] as nat,
{
    reveal_with_fuel(big_endian_value, 5);
    let t = s.drop_last().drop_last().drop_last().drop_last();
    lemma_big_endian_value_4(t);
    assert(t[0] == s[0] && t[1] == s[1] && t[2] == s[2] && t[3] == s[3]);
    assert(s.drop_last().drop_last().drop_last().last() == s[4]);
    assert(s.drop_last().drop_last().last() == s[5]);
    assert(s.drop_last().last() == s[6]);
}

/// The two bytes of a 16-bit field write its value in base 256.
pub proof fn law_be16(v: u16)
    ensures
        be16(v).len() == 2,
        big_endian_value(be16(v)) == v as nat,
{
    let s = be16(v);
    lemma_big_endian_value_2(s);
    assert(((((v >> 8u16) & 0xffu16) as u8) as u16) * 256 + (((v & 0xffu16) as u8) as u16) == v)
        by (bit_vector);
}

/// The four bytes of a 32-bit field write its value in base 256.
pub proof fn law_be32(v: u32)
    ensures
        be32(v).len() == 4,
        big_endian_value(be32(v)) == v as nat,
{
    let s = be32(v);
    lemma_big_endian_value_4(s);
    assert((((((((v >> 24u32) & 0xffu32) as u8) as u64) * 256 + ((((v >> 16u32) & 0xffu32) as u8)
        as u64)) * 256 + ((((v >> 8u32) & 0xffu32) as u8) as u64)) * 256 + (((v & 0xffu32) as u8)
        as u64)) == v as u64) by (bit_vector);
}

/// The eight bytes of a 64-bit field write its value in base 256.
pub proof fn law_be64(v: u64)
    ensures
        be64(v).len() == 8,
        big_endian_value(be64(v)) == v as nat,
{
    let s = be64(v);
    lemma_big_endian_value_8(s);
    let b0 = ((v >> 56u64) & 0xffu64) as u8;
    let b1 = ((v >> 48u64) & 0xffu64) as u8;
    let b2 = ((v >> 40u64) & 0xffu64) as u8;
    let b3 = ((v >> 32u64) & 0xffu64) as u8;
    let b4 = ((v >> 24u64) & 0xffu64) as u8;
    let b5 = ((v >> 16u64) & 0xffu64) as u8;
    let b6 = ((v >> 8u64) & 0xffu64) as u8;
    let b7 = (v & 0xffu64) as u8;
    assert(b0 == ((v >> 56u64) & 0xffu64) as u8 && b1 == ((v >> 48u64) & 0xffu64) as u8 && b2
        == ((v >> 40u64) & 0xffu64) as u8 && b3 == ((v >> 32u64) & 0xffu64) as u8 && b4 == ((v
        >> 24u64) & 0xffu64) as u8 && b5 == ((v >> 16u64) & 0xffu64) as u8 && b6 == ((v >> 8u64)
        & 0xffu64) as u8 && b7 == (v & 0xffu64) as u8 ==> (((((((b0 as u128 * 256 + b1 as u128)
        * 256 + b2 as u128) * 256 + b3 as u128) * 256 + b4 as u128) * 256 + b5 as u128) * 256
        + b6 as u128) * 256 + b7 as u128) == v as u128) by (bit_vector);
}

/// The file-name rules of the protocol, on a name's UTF-8 bytes: at most
/// 255 bytes, and no `/` (0x2f), `\` (0x5c), NUL, or two dots in a row.
pub proof fn law_file_name_rules(b: Seq<u8>)
    ensures
        valid_file_name(b) == (b.len() <= 255 && (forall|i: int|
            0 <= i < b.len() ==> b[i] != 0x2f && b[i] != 0x5c && b[i] != 0) && (forall|i: int|
            0 <= i < b.len() - 1 ==> !(#[trigger] b[i] == 0x2e && b[i + 1] == 0x2e))),
{
}

/// The wire bytes of a request header: magic, version, opcode byte,
/// file-name length and payload length, each where the protocol puts it.
pub proof fn law_request_header_bytes(h: RequestHeaderView)
    ensures
        request_header_bytes(h).len() == 14,
        big_endian_value(request_header_bytes(h).subrange(0, 2)) == h.magic as nat,
        request_header_bytes(h)[2] == h.version,
        request_header_bytes(h)[3] == h.opcode.wire_byte(),
        big_endian_value(request_header_bytes(h).subrange(4, 6)) == h.filename_len as nat,
        big_endian_value(request_header_bytes(h).subrange(6, 14)) == h.payload_len as nat,
{
    let b = request_header_bytes(h);
    law_be16(h.magic);
    law_be16(h.filename_len);
    law_be64(h.payload_len);
    assert(b.subrange(0, 2) =~= be16(h.magic));
    assert(b.subrange(4, 6) =~= be16(h.filename_len));
    assert(b.subrange(6, 14) =~= be64(h.payload_len));
}

/// The wire bytes of a response header: magic, version, status byte and
/// payload length, each where the protocol puts it.
pub proof fn law_response_header_bytes(h: ResponseHeaderView)
    ensures
        response_header_bytes(h).len() == 12,
        big_endian_value(response_header_bytes(h).subrange(0, 2)) == h.magic as nat,
        response_header_bytes(h)[2] == h.version,
        response_header_bytes(h)[3] == h.status_code.wire_byte(),
        big_endian_value(response_header_bytes(h).subrange(4, 12)) == h.payload_len as nat,
{
    let b = response_header_bytes(h);
    law_be16(h.magic);
    law_be64(h.payload_len);
    assert(b.subrange(0, 2) =~= be16(h.magic));
    assert(b.subrange(4, 12) =~= be64(h.payload_len));
}

/// The opcode and status bytes of the protocol's tables.
pub proof fn law_code_bytes()
    ensures
        Opcode::LIST.wire_byte() == 0x01,
        Opcode::UPLOAD.wire_byte() == 0x02,
        Opcode::DOWNLOAD.wire_byte() == 0x03,
        Opcode::DELETE.wire_byte() == 0x04,
        StatusCode::Success.wire_byte() == 0x00,
        StatusCode::ErrorNotFound.wire_byte() == 0x01,
        StatusCode::ErrorExists.wire_byte() == 0x02,
        StatusCode::ErrorIo.wire_byte() == 0x03,
        StatusCode::ErrorBadRequest.wire_byte() == 0xff,
{
}

/// A DOWNLOAD payload is the chunk itself, whatever its bytes and whatever
/// the file size: it encodes exactly when the chunk is no longer than the
/// file and than `MAX_CHUNK_SIZE`, and otherwise fails with
/// `ErrorBadResponse`.
pub proof fn law_download_payload(d: DownloadResp)
    ensures
        (d.encoded() is Ok) == (d@.chunk.len() <= d@.payload_size && d@.chunk.len()
            <= MAX_CHUNK_SIZE),
        d.encoded() is Ok ==> d.encoded()->Ok_0 == d@.chunk,
        d.encoded() is Err ==> d.encoded()->Err_0 == ErrorCode::ErrorBadResponse,
{
}

/// A whole DOWNLOAD response is its twelve-byte header, which announces the
/// file size, followed by exactly the chunk; it can be sent exactly when the
/// chunk is no longer than the file and than `MAX_CHUNK_SIZE`.
pub proof fn law_download_response(r: Response<DownloadResp>)
    ensures
        (r.wire_bytes() is Ok) == (r.content()@.chunk.len() <= r.content()@.payload_size
            && r.content()@.chunk.len() <= MAX_CHUNK_SIZE),
        r.wire_bytes() is Ok ==> ({
            let m = r.wire_bytes()->Ok_0;
            &&& m.len() == 12 + r.content()@.chunk.len()
            &&& big_endian_value(m.subrange(4, 12)) == r.header_view().payload_len as nat
            &&& m.subrange(12, m.len() as int) == r.content()@.chunk
        }),
{
    law_download_payload(r.content());
    law_response_header_bytes(r.header_view());
    if r.wire_bytes() is Ok {
        let hb = response_header_bytes(r.header_view());
        let m = hb + r.content()@.chunk;
        assert(m.subrange(4, 12) =~= hb.subrange(4, 12));
        assert(m.subrange(12, m.len() as int) =~= r.content()@.chunk);
    }
}

/// The body of a DOWNLOAD request is exactly the name's UTF-8 bytes, for
/// every name whose recorded length is right and that keeps the file-name
/// rules; a wrong length fails with `UnknownErr`, a broken rule with
/// `ErrorBadRequest`.
pub proof fn law_download_request_body(d: DownloadReq)
    ensures
        (d.encoded() is Ok) == (d@.filename_len as nat == encode_utf8(d@.filename).len()
            && valid_file_name(encode_utf8(d@.filename))),
        d.encoded() is Ok ==> d.encoded()->Ok_0 == encode_utf8(d@.filename),
        d@.filename_len as nat != encode_utf8(d@.filename).len() ==> d.encoded() == Err::<
            Seq<u8>,
            ErrorCode,
        >(ErrorCode::UnknownErr),
        d.encoded() is Err && d@.filename_len as nat == encode_utf8(d@.filename).len()
            ==> d.encoded() == Err::<Seq<u8>, ErrorCode>(ErrorCode::ErrorBadRequest),
{
}

/// The body of a DELETE request is exactly the name's UTF-8 bytes, for every
/// name whose recorded length is right and that keeps the file-name rules;
/// a wrong length fails with `UnknownErr`, a broken rule with
/// `ErrorBadRequest`.
pub proof fn law_delete_request_body(d: DeleteReq)
    ensures
        (d.encoded() is Ok) == (d@.filename_len as nat == encode_utf8(d@.filename).len()
            && valid_file_name(encode_utf8(d@.filename))),
        d.encoded() is Ok ==> d.encoded()->Ok_0 == encode_utf8(d@.filename),
        d@.filename_len as nat != encode_utf8(d@.filename).len() ==> d.encoded() == Err::<
            Seq<u8>,
            ErrorCode,
        >(ErrorCode::UnknownErr),
        d.encoded() is Err && d@.filename_len as nat == encode_utf8(d@.filename).len()
            ==> d.encoded() == Err::<Seq<u8>, ErrorCode>(ErrorCode::ErrorBadRequest),
{
}

/// The body of an UPLOAD request is the name's UTF-8 bytes followed by the
/// chunk, whatever the chunk's bytes: it encodes exactly when the name's
/// recorded length is right, the name keeps the rules, and the chunk is no
/// longer than the file and than `MAX_CHUNK_SIZE`.
pub proof fn law_upload_request_body(u: UploadReq)
    ensures
        (u.encoded() is Ok) == (u@.filename_len as nat == encode_utf8(u@.filename).len()
            && valid_file_name(encode_utf8(u@.filename)) && u@.chunk.len() <= u@.payload_size
            && u@.chunk.len() <= MAX_CHUNK_SIZE),
        u.encoded() is Ok ==> u.encoded()->Ok_0 == encode_utf8(u@.filename) + u@.chunk,
        u@.filename_len as nat != encode_utf8(u@.filename).len() ==> u.encoded() == Err::<
            Seq<u8>,
            ErrorCode,
        >(ErrorCode::UnknownErr),
        u.encoded() is Err && u@.filename_len as nat == encode_utf8(u@.filename).len()
            ==> u.encoded() == Err::<Seq<u8>, ErrorCode>(ErrorCode::ErrorBadRequest),
{
}

/// A file entry's bytes: the name length in two bytes, the name, and the
/// file size in eight bytes, for any name; it encodes exactly when the
/// recorded name length is the name's UTF-8 length.
pub proof fn law_entry_bytes(e: FileEntryView)
    ensures
        (entry_bytes(e) is Some) == (e.name_len as nat == encode_utf8(e.name).len()),
        entry_bytes(e) is Some ==> ({
            let b = entry_bytes(e)->Some_0;
            let n = e.name_len as int;
            &&& b.len() == 10 + n
            &&& big_endian_value(b.subrange(0, 2)) == e.name_len as nat
            &&& b.subrange(2, 2 + n) == encode_utf8(e.name)
            &&& big_endian_value(b.subrange(2 + n, 10 + n)) == e.file_size as nat
        }),
{
    if entry_bytes(e) is Some {
        let b = entry_bytes(e)->Some_0;
        let n = e.name_len as int;
        law_be16(e.name_len);
        law_be64(e.file_size);
        assert(b.subrange(0, 2) =~= be16(e.name_len));
        assert(b.subrange(2, 2 + n) =~= encode_utf8(e.name));
        assert(b.subrange(2 + n, 10 + n) =~= be64(e.file_size));
    }
}

/// A run of entries encodes exactly when every entry's recorded name length
/// is right.
pub proof fn law_entries_encode(es: Seq<FileEntryView>)
    ensures
        (entries_bytes(es) is Some) == (forall|i: int|
            0 <= i < es.len() ==> #[trigger] es[i].name_len as nat == encode_utf8(es[i].name).len()),
    decreases es.len(),
{
    if es.len() > 0 {
        law_entries_encode(es.drop_first());
        law_entry_bytes(es[0]);
        if entries_bytes(es) is Some {
            assert forall|i: int| 0 <= i < es.len() implies #[trigger] es[i].name_len as nat
                == encode_utf8(es[i].name).len() by {
                if i > 0 {
                    assert(es[i] == es.drop_first()[i - 1]);
                }
            }
        } else {
            if forall|i: int|
                0 <= i < es.len() ==> #[trigger] es[i].name_len as nat == encode_utf8(
                    es[i].name,
                ).len() {
                assert forall|i: int| 0 <= i < es.drop_first().len() implies #[trigger] es.drop_first()[i].name_len as nat
                    == encode_utf8(es.drop_first()[i].name).len() by {
                    assert(es.drop_first()[i] == es[i + 1]);
                }
                assert(es[0].name_len as nat == encode_utf8(es[0].name).len());
            }
        }
    }
}

/// A file list's payload starts with the file count in four bytes; it
/// encodes exactly when every entry's recorded name length is right,
/// whatever the names and sizes are.
pub proof fn law_list_payload(l: ListRespView)
    ensures
        (list_payload(l) is Ok) == (forall|i: int|
            0 <= i < l.entries.len() ==> #[trigger] l.entries[i].name_len as nat == encode_utf8(
                l.entries[i].name,
            ).len()),
        list_payload(l) is Ok ==> big_endian_value(list_payload(l)->Ok_0.subrange(0, 4))
            == l.file_count as nat,
        list_payload(l) is Err ==> list_payload(l)->Err_0 == ErrorCode::UnknownErr,
{
    law_entries_encode(l.entries);
    law_be32(l.file_count);
    if list_payload(l) is Ok {
        assert(list_payload(l)->Ok_0.subrange(0, 4) =~= be32(l.file_count));
    }
}

/// Whether a character is a decimal digit.
pub open spec fn is_digit(c: char) -> bool {
    '0' <= c && c <= '9'
}

/// The number that a run of decimal digits writes, most significant first.
pub open spec fn decimal_value(s: Seq<char>) -> int
    decreases s.len(),
{
    if s.len() == 0 {
        0
    } else {
        decimal_value(s.drop_last()) * 10 + (s.last() as int - '0' as int)
    }
}

proof fn lemma_digit_char(d: nat)
    requires
        d < 10,
    ensures
        is_digit(digit_char(d)),
        digit_char(d) as int - '0' as int == d,
{
}

/// The decimal text of a number is its base-10 numeral: nothing but digits,
/// the number they write is the number itself, and it has no leading zero.
pub proof fn law_decimal(n: nat)
    ensures
        decimal(n).len() >= 1,
        forall|i: int| 0 <= i < decimal(n).len() ==> is_digit(#[trigger] decimal(n)[i]),
        decimal_value(decimal(n)) == n,
        decimal(n).len() > 1 ==> decimal(n)[0] != '0',
        (decimal(n).len() == 1) == (n < 10),
    decreases n,
{
    if n < 10 {
        lemma_digit_char(n);
        let s = decimal(n);
        assert(s.drop_last().len() == 0);
        assert(decimal_value(s.drop_last()) == 0);
        assert(s.last() == digit_char(n));
    } else {
        law_decimal(n / 10);
        lemma_digit_char(n % 10);
        let s = decimal(n);
        let p = decimal(n / 10);
        assert(s == p.push(digit_char(n % 10)));
        assert(s.drop_last() =~= p);
        assert forall|i: int| 0 <= i < s.len() implies is_digit(#[trigger] s[i]) by {
            if i < p.len() {
                assert(s[i] == p[i]);
            }
        }
        assert(s.last() == digit_char(n % 10));
        assert(decimal_value(s) == decimal_value(p) * 10 + (n % 10));
        assert((n / 10) * 10 + n % 10 == n);
        assert(s[0] == p[0]);
        if p.len() == 1 {
            assert(n / 10 < 10);
            lemma_digit_char(n / 10);
        }
    }
}

proof fn lemma_from_be16_value(b0: u8, b1: u8)
    ensures
        from_be16(b0, b1) as nat == big_endian_value(seq![b0, b1]),
{
    lemma_big_endian_value_2(seq![b0, b1]);
    assert((((b0 as u16) << 8u16) | (b1 as u16)) == (b0 as u16) * 256 + (b1 as u16)) by (bit_vector);
}

proof fn lemma_from_be32_value(s: Seq<u8>)
    requires
        s.len() == 4,
    ensures
        from_be32(s) as nat == big_endian_value(s),
{
    lemma_big_endian_value_4(s);
    let (b0, b1, b2, b3) = (s[0], s[1], s[2], s[3]);
    assert((((b0 as u32) << 24u32) | ((b1 as u32) << 16u32) | ((b2 as u32) << 8u32) | (b3 as u32))
        as u64 == (((b0 as u64) * 256 + (b1 as u64)) * 256 + (b2 as u64)) * 256 + (b3 as u64))
        by (bit_vector);
}

proof fn lemma_from_be64_value(s: Seq<u8>)
    requires
        s.len() == 8,
    ensures
        from_be64(s) as nat == big_endian_value(s),
{
    lemma_big_endian_value_8(s);
    let (b0, b1, b2, b3, b4, b5, b6, b7) = (s[0], s[1], s[2], s[3], s[4], s[5], s[6], s[7]);
    assert((((b0 as u64) << 56u64) | ((b1 as u64) << 48u64) | ((b2 as u64) << 40u64) | ((b3 as u64)
        << 32u64) | ((b4 as u64) << 24u64) | ((b5 as u64) << 16u64) | ((b6 as u64) << 8u64) | (
    b7 as u64)) as u128 == (((((((b0 as u128 * 256 + b1 as u128) * 256 + b2 as u128) * 256
        + b3 as u128) * 256 + b4 as u128) * 256 + b5 as u128) * 256 + b6 as u128) * 256
        + b7 as u128)) by (bit_vector);
}

/// Reading a request header: it is accepted exactly when it starts with
/// `"FS"` and its opcode byte is one of the four opcodes, and then every field
/// is the value its bytes write; anything else is `BadRequest`.
pub proof fn law_parse_request_header(b: Seq<u8>)
    requires
        b.len() == 14,
    ensures
        (parse_request_header(b) is Ok) == (b[0] == 0x46 && b[1] == 0x53 && 1 <= b[3] <= 4),
        parse_request_header(b) is Err ==> parse_request_header(b)->Err_0 == Error::BadRequest,
        parse_request_header(b) is Ok ==> ({
            let h = parse_request_header(b)->Ok_0;
            &&& h.magic as nat == big_endian_value(b.subrange(0, 2))
            &&& h.version == b[2]
            &&& h.opcode.wire_byte() == b[3]
            &&& h.filename_len as nat == big_endian_value(b.subrange(4, 6))
            &&& h.payload_len as nat == big_endian_value(b.subrange(6, 14))
        }),
{
    let (b0, b1) = (b[0], b[1]);
    assert((((b0 as u16) << 8u16) | (b1 as u16)) == 0x4653u16 <==> (b0 == 0x46u8 && b1 == 0x53u8))
        by (bit_vector);
    lemma_from_be16_value(b[0], b[1]);
    lemma_from_be16_value(b[4], b[5]);
    lemma_from_be64_value(b.subrange(6, 14));
    assert(b.subrange(0, 2) =~= seq![b[0], b[1]]);
    assert(b.subrange(4, 6) =~= seq![b[4], b[5]]);
}

/// Reading a response header: refused with `BadRequest` unless it starts
/// with `"FS"`, then with `BadResponse` unless its status byte is one of the
/// five statuses; once accepted, every field is the value its bytes write.
pub proof fn law_parse_response_header(b: Seq<u8>)
    requires
        b.len() == 12,
    ensures
        !(b[0] == 0x46 && b[1] == 0x53) ==> parse_response_header(b) == Err::<
            ResponseHeaderView,
            Error,
        >(Error::BadRequest),
        (b[0] == 0x46 && b[1] == 0x53) ==> ((parse_response_header(b) is Ok) == (b[3] <= 3 || b[3]
            == 0xff)),
        (b[0] == 0x46 && b[1] == 0x53) && parse_response_header(b) is Err
            ==> parse_response_header(b)->Err_0 == Error::BadResponse,
        parse_response_header(b) is Ok ==> ({
            let h = parse_response_header(b)->Ok_0;
            &&& h.magic as nat == big_endian_value(b.subrange(0, 2))
            &&& h.version == b[2]
            &&& h.status_code.wire_byte() == b[3]
            &&& h.payload_len as nat == big_endian_value(b.subrange(4, 12))
        }),
{
    let (b0, b1) = (b[0], b[1]);
    assert((((b0 as u16) << 8u16) | (b1 as u16)) == 0x4653u16 <==> (b0 == 0x46u8 && b1 == 0x53u8))
        by (bit_vector);
    lemma_from_be16_value(b[0], b[1]);
    lemma_from_be64_value(b.subrange(4, 12));
    assert(b.subrange(0, 2) =~= seq![b[0], b[1]]);
}

/// Reading the body of a DOWNLOAD or DELETE request: accepted exactly when
/// no file data is announced and the body is exactly the announced number of
/// bytes, well-formed UTF-8 that keeps the file-name rules; the name read is
/// the one those bytes encode. Anything else is `ErrorBadRequest`.
pub proof fn law_parse_name_body(filename_len: u16, payload_len: u64, b: Seq<u8>)
    ensures
        (parse_name_body(filename_len, payload_len, b) is Ok) == (payload_len == 0 && b.len()
            == filename_len as nat && valid_utf8(b) && valid_file_name(b)),
        parse_name_body(filename_len, payload_len, b) is Ok ==> ({
            let v = parse_name_body(filename_len, payload_len, b)->Ok_0;
            v.filename_len == filename_len && encode_utf8(v.filename) == b
        }),
        parse_name_body(filename_len, payload_len, b) is Err ==> parse_name_body(
            filename_len,
            payload_len,
            b,
        )->Err_0 == ErrorCode::ErrorBadRequest,
{
    if valid_utf8(b) {
        decode_utf8_encode_utf8(b);
    }
}

/// Reading the body of an UPLOAD request: the first `filename_len` bytes are
/// the name and all the rest is the chunk, whatever its bytes. Accepted
/// exactly when the body holds the whole name, the name is UTF-8 that keeps
/// the file-name rules, and the chunk is no longer than the file and than
/// `MAX_CHUNK_SIZE`; anything else is `ErrorBadRequest`.
pub proof fn law_parse_upload_body(filename_len: u16, payload_len: u64, b: Seq<u8>)
    ensures
        (parse_upload_body(filename_len, payload_len, b) is Ok) == (b.len() >= filename_len as nat
            && valid_utf8(b.subrange(0, filename_len as int)) && valid_file_name(
            b.subrange(0, filename_len as int),
        ) && b.len() - filename_len <= MAX_CHUNK_SIZE && b.len() - filename_len <= payload_len),
        parse_upload_body(filename_len, payload_len, b) is Ok ==> ({
            let v = parse_upload_body(filename_len, payload_len, b)->Ok_0;
            &&& v.filename_len == filename_len
            &&& v.payload_size == payload_len
            &&& encode_utf8(v.filename) == b.subrange(0, filename_len as int)
            &&& v.chunk == b.subrange(filename_len as int, b.len() as int)
        }),
        parse_upload_body(filename_len, payload_len, b) is Err ==> parse_upload_body(
            filename_len,
            payload_len,
            b,
        )->Err_0 == ErrorCode::ErrorBadRequest,
{
    if b.len() >= filename_len as nat && valid_utf8(b.subrange(0, filename_len as int)) {
        decode_utf8_encode_utf8(b.subrange(0, filename_len as int));
    }
}

/// Reading the first chunk of a DOWNLOAD payload: accepted exactly when it is
/// no longer than the announced file and than `MAX_CHUNK_SIZE`, whatever its
/// bytes, and then kept as it is; otherwise `ErrorBadResponse`.
pub proof fn law_parse_download(payload_size: u64, chunk: Seq<u8>)
    ensures
        (parse_download(payload_size, chunk) is Ok) == (chunk.len() <= payload_size && chunk.len()
            <= MAX_CHUNK_SIZE),
        parse_download(payload_size, chunk) is Ok ==> parse_download(payload_size, chunk)->Ok_0.chunk
            == chunk && parse_download(payload_size, chunk)->Ok_0.payload_size == payload_size,
        parse_download(payload_size, chunk) is Err ==> parse_download(payload_size, chunk)->Err_0
            == ErrorCode::ErrorBadResponse,
{
}

proof fn lemma_parse_entries_len(s: Seq<u8>, pos: int, k: nat)
    ensures
        parse_entries_at(s, pos, k) is Some ==> parse_entries_at(s, pos, k)->Some_0.len() == k,
    decreases k,
{
    if k > 0 {
        match crate::response::parse_entry_at(s, pos) {
            Some((e, next)) => lemma_parse_entries_len(s, next, (k - 1) as nat),
            None => {},
        }
    }
}

/// A file list that reads has as many entries as the count its first four
/// bytes write; fewer than four bytes never read.
pub proof fn law_parse_list(s: Seq<u8>)
    ensures
        s.len() < 4 ==> parse_list(s) == Err::<ListRespView, ErrorCode>(ErrorCode::ErrorBadResponse),
        parse_list(s) is Ok ==> ({
            let l = parse_list(s)->Ok_0;
            &&& l.file_count as nat == big_endian_value(s.subrange(0, 4))
            &&& l.entries.len() == l.file_count as nat
        }),
        parse_list(s) is Err ==> parse_list(s)->Err_0 == ErrorCode::ErrorBadResponse,
{
    if s.len() >= 4 {
        lemma_from_be32_value(s.subrange(0, 4));
        lemma_parse_entries_len(s, 4, from_be32(s.subrange(0, 4)) as nat);
    }
}

/// The text of an entry is its name, a space and an opening parenthesis, the
/// file size's decimal numeral, then " bytes)".
pub proof fn law_entry_text(e: FileEntryView)
    ensures
        entry_text(e) == e.name + seq![' ', '('] + decimal(e.file_size as nat) + seq![
            ' ',
            'b',
            'y',
            't',
            'e',
            's',
            ')',
        ],
{
    reveal_strlit(" (");
    reveal_strlit(" bytes)");
}

/// A whole message is its header's bytes followed by the body's; a body with
/// nothing to send adds nothing, and any other failing body fails the
/// message with the given error.
pub proof fn law_framed(header: Seq<u8>, body: Result<Seq<u8>, ErrorCode>, fail: ErrorCode)
    ensures
        body is Ok ==> framed(header, body, fail) == Ok::<Seq<u8>, ErrorCode>(header + body->Ok_0),
        body == Err::<Seq<u8>, ErrorCode>(ErrorCode::Empty) ==> framed(header, body, fail) == Ok::<
            Seq<u8>,
            ErrorCode,
        >(header),
        body is Err && body->Err_0 != ErrorCode::Empty ==> framed(header, body, fail) == Err::<
            Seq<u8>,
            ErrorCode,
        >(fail),
{
}

/// The status that reports an error: not-found, exists, I/O and bad-request
/// errors report their own status, every other error reports
/// `ErrorBadRequest`; no error is reported as a success.
pub proof fn law_status_of(e: ErrorCode)
    ensures
        status_of(e) != StatusCode::Success,
        e == ErrorCode::ErrorNotFound ==> status_of(e) == StatusCode::ErrorNotFound,
        e == ErrorCode::ErrorExists ==> status_of(e) == StatusCode::ErrorExists,
        e == ErrorCode::ErrorIo ==> status_of(e) == StatusCode::ErrorIo,
        !(e == ErrorCode::ErrorNotFound || e == ErrorCode::ErrorExists || e == ErrorCode::ErrorIo)
            ==> status_of(e) == StatusCode::ErrorBadRequest,
{
}

/// The next chunk of a transfer is everything that is left, up to
/// `MAX_CHUNK_SIZE`: never more than is left, and never smaller than both.
pub proof fn law_chunk_len(remaining: u64)
    ensures
        chunk_len_of(remaining) <= remaining,
        chunk_len_of(remaining) <= MAX_CHUNK_SIZE,
        chunk_len_of(remaining) == remaining || chunk_len_of(remaining) == MAX_CHUNK_SIZE,
{
}

} // verus!
