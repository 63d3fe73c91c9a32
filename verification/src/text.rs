//! UTF-8 text taken from wire bytes.

use vstd::prelude::*;
use vstd::string::StringSliceAdditionalSpecFns;
use vstd::utf8::decode_utf8;
use vstd::utf8::encode_utf8_decode_utf8;
use vstd::utf8::valid_utf8;

verus! {

/// `core::str::Utf8Error`, what `core::str::from_utf8` returns for bytes that are not UTF-8.
#[verifier::external_type_specification]
#[verifier::external_body]
pub struct ExUtf8Error(core::str::Utf8Error);

/// `core::str::from_utf8` succeeds exactly on the byte slices that are valid UTF-8,
/// and the string slice it then returns has those very bytes as its encoding.
pub assume_specification[ core::str::from_utf8 ](v: &[u8]) -> (result: Result<
    &str,
    core::str::Utf8Error,
>)
    ensures
        result is Ok <==> valid_utf8(v@),
        result matches Ok(s) ==> s.spec_bytes() == v@,
;

/// The text that `bytes` encode in UTF-8, or `None` if they encode none.
pub open spec fn spec_text(bytes: Seq<u8>) -> Option<Seq<char>> {
    if valid_utf8(bytes) {
        Some(decode_utf8(bytes))
    } else {
        None
    }
}

/// Decodes `bytes` as UTF-8 text.
pub fn text_from_bytes(bytes: &[u8]) -> (text: Option<String>)
    ensures
        text is Some <==> valid_utf8(bytes@),
        text matches Some(s) ==> s@ == decode_utf8(bytes@),
{
    match core::str::from_utf8(bytes) {
        Ok(s) => {
            proof {
                encode_utf8_decode_utf8(s@);
            }
            Some(s.to_owned())
        },
        Err(_) => None,
    }
}

} // verus!
