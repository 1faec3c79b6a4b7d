//! The decisions of a client on the responses it receives.
use vstd::prelude::*;

use crate::header::{ResponseHeader, StatusCode};
use crate::response::{parse_list, ListResp, ListRespView};
use crate::utils::ErrorCode;

verus! {

/// Accepts a response whose status is `Success`; any other status is
/// reported as `UnknownErr`.
pub fn expect_success(resp_header: &ResponseHeader) -> (r: Result<(), ErrorCode>)
    ensures
        r == (if resp_header@.status_code == StatusCode::Success {
            Ok::<(), ErrorCode>(())
        } else {
            Err::<(), ErrorCode>(ErrorCode::UnknownErr)
        }),
{
    match resp_header.get_status_code() {
        StatusCode::Success => Ok(()),
        _ => Err(ErrorCode::UnknownErr),
    }
}

/// Reads the file list of a LIST response: a status other than `Success` is
/// reported as `UnknownErr`, and otherwise the payload is read as a list.
pub fn read_list_response(resp_header: &ResponseHeader, payload: &Vec<u8>) -> (r: Result<
    ListResp,
    ErrorCode,
>)
    ensures
        resp_header@.status_code != StatusCode::Success ==> r matches Err(ErrorCode::UnknownErr),
        resp_header@.status_code == StatusCode::Success ==> match r {
            Ok(l) => parse_list(payload@) == Ok::<ListRespView, ErrorCode>(l@),
            Err(e) => parse_list(payload@) == Err::<ListRespView, ErrorCode>(e),
        },
{
    expect_success(resp_header)?;
    ListResp::try_from(payload)
}

} // verus!
