//! The snapshot that a primary sends to a replica: the image of an empty
//! database.

use base64::Engine;
use vstd::prelude::*;
use vstd::utf8::encode_utf8;

verus! {

/// The image of an empty database, in base64.
pub const EMPTY_RDB: &'static str =
    "UkVESVMwMDEx+glyZWRpcy12ZXIFNy4yLjD6CnJlZGlzLWJpdHPAQPoFY3RpbWXCbQi8ZfoIdXNlZC1tZW3CsMQQAPoIYW9mLWJhc2XAAP/wbjv+wP9aog==";

/// What standard base64 text with padding decodes to; `None` where the text
/// is not valid.
pub uninterp spec fn base64_standard_decoded(input: Seq<u8>) -> Option<Seq<u8>>;

/// The error of `base64` for text that does not decode.
#[verifier::external_type_specification]
#[verifier::external_body]
pub struct ExDecodeError(base64::DecodeError);

/// Calls `Engine::decode` of `base64` on the standard engine. Trusted: the
/// outcome depends on the input alone, and is the decoded bytes or, for text
/// that is not valid, an error.
#[verifier::external_body]
fn decode_standard(input: &[u8]) -> (r: Result<Vec<u8>, base64::DecodeError>)
    ensures
        r is Ok ==> base64_standard_decoded(input@) == Some(r->Ok_0@),
        r is Err ==> base64_standard_decoded(input@) is None,
{
    base64::prelude::BASE64_STANDARD.decode(input)
}

/// The bytes of the image of an empty database, where the built-in text
/// decodes.
pub open spec fn spec_empty_rdb() -> Option<Seq<u8>> {
    base64_standard_decoded(encode_utf8(EMPTY_RDB@))
}

/// Decodes the image of an empty database. `None` where the built-in text is
/// not valid base64.
pub fn get_empty_rdb_decoded() -> (r: Option<Vec<u8>>)
    ensures
        r is Some ==> spec_empty_rdb() == Some(r->0@),
        r is None ==> spec_empty_rdb() is None,
{
    match decode_standard(EMPTY_RDB.as_bytes()) {
        Ok(image) => Some(image),
        Err(_) => None,
    }
}

/// The five bytes that open a database image: `REDIS`.
pub open spec fn magic() -> Seq<u8> {
    seq![0x52u8, 0x45u8, 0x44u8, 0x49u8, 0x53u8]
}

/// Whether `file` opens as a database image does.
pub open spec fn spec_is_rdb(file: Seq<u8>) -> bool {
    file.len() >= 5 && file.subrange(0, 5) == magic()
}

/// Whether `file` opens as a database image does: with the bytes `REDIS`.
pub fn is_rdb(file: &[u8]) -> (r: bool)
    ensures
        r == spec_is_rdb(file@),
{
    if file.len() < 5 {
        return false;
    }
    let r = file[0] == 0x52 && file[1] == 0x45 && file[2] == 0x44 && file[3] == 0x49 && file[4]
        == 0x53;
    proof {
        if r {
            assert(file@.subrange(0, 5) =~= magic());
        } else {
            assert(file@.subrange(0, 5)[0] == file@[0]);
            assert(file@.subrange(0, 5)[1] == file@[1]);
            assert(file@.subrange(0, 5)[2] == file@[2]);
            assert(file@.subrange(0, 5)[3] == file@[3]);
            assert(file@.subrange(0, 5)[4] == file@[4]);
        }
    }
    r
}

} // verus!
