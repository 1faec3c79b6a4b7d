//! UTF-8 file names: decoding them from bytes, and the rules a name must keep.
use vstd::prelude::*;
use vstd::utf8::{decode_utf8, valid_utf8};

verus! {

/// `FromUtf8Error` (std), the error of `String::from_utf8`: declared so that
/// its result can be named; nothing inside it is read.
#[verifier::external_type_specification]
#[verifier::external_body]
pub struct ExFromUtf8Error(std::string::FromUtf8Error);

/// `String::from_utf8` (std): succeeds exactly when the bytes are well-formed
/// UTF-8, and the string it gives holds the characters those bytes encode.
pub assume_specification[ std::string::String::from_utf8 ](vec: Vec<u8>) -> (r: Result<
    String,
    std::string::FromUtf8Error,
>)
    ensures
        match r {
            Ok(s) => valid_utf8(vec@) && s@ == decode_utf8(vec@),
            Err(_) => !valid_utf8(vec@),
        },
;

/// The longest file name, in bytes.
pub const MAX_FILENAME_LEN: usize = 255;

/// A byte that no file name may hold: `/`, `\` or NUL.
pub open spec fn is_forbidden_name_byte(b: u8) -> bool {
    b == 0x2f || b == 0x5c || b == 0
}

/// The rules of the protocol for a file name, on its UTF-8 bytes: at most 255
/// bytes, no `/`, `\` or NUL, and no `..`.
pub open spec fn valid_file_name(b: Seq<u8>) -> bool {
    &&& b.len() <= MAX_FILENAME_LEN
    &&& forall|i: int| 0 <= i < b.len() ==> !is_forbidden_name_byte(#[trigger] b[i])
    &&& forall|i: int| 0 <= i < b.len() - 1 ==> !(#[trigger] b[i] == 0x2e && b[i + 1] == 0x2e)
}

/// Whether the UTF-8 bytes of a file name keep the protocol's rules.
pub fn is_valid_file_name(b: &[u8]) -> (r: bool)
    ensures
        r == valid_file_name(b@),
{
    if b.len() > MAX_FILENAME_LEN {
        return false;
    }
    let mut i: usize = 0;
    while i < b.len()
        invariant
            0 <= i <= b@.len(),
            b@.len() <= MAX_FILENAME_LEN,
            forall|j: int| 0 <= j < i ==> !is_forbidden_name_byte(#[trigger] b@[j]),
            forall|j: int| 0 <= j < i && j < b@.len() - 1 ==> !(#[trigger] b@[j] == 0x2e && b@[j
                + 1] == 0x2e),
        decreases b@.len() - i,
    {
        let c = b[i];
        if c == 0x2f || c == 0x5c || c == 0 {
            assert(is_forbidden_name_byte(b@[i as int]));
            return false;
        }
        if c == 0x2e && i + 1 < b.len() && b[i + 1] == 0x2e {
            assert(b@[i as int] == 0x2e && b@[i + 1] == 0x2e);
            return false;
        }
        i = i + 1;
    }
    true
}

} // verus!
