//! Upload validation: the extension and size rules every photo or logo
//! upload must pass before any byte is stored. Storing the file and
//! recording its URL are the blob store's job.

use vstd::prelude::*;
use vstd::string::StringExecFns;

use crate::errors::ApiError;
use crate::text::spec_split;
use crate::text::split_char;
use crate::text::str_eq;
use crate::text::lemma_spec_split_len;

verus! {

/// The stored file's public URL.
pub struct UploadResponse {
    pub url: String,
}

/// The maximum accepted upload, in bytes.
pub const MAX_FILE_SIZE: usize = 5242880;

/// The lower-case form of a string.
pub uninterp spec fn lower_of(s: Seq<char>) -> Seq<char>;

/// Relies on str::to_lowercase: the result depends on the characters
/// alone.
#[verifier::external_body]
fn to_lowercase(s: &str) -> (r: String)
    ensures
        r@ == lower_of(s@),
{
    s.to_lowercase()
}

/// A file name's extension: what follows its last dot, the whole name
/// where it has none.
pub open spec fn spec_extension(filename: Seq<char>) -> Seq<char> {
    spec_split(filename, '.').last()
}

/// The lower-cased extensions an image upload accepts; a parish logo may
/// also be an svg.
pub open spec fn spec_extension_allowed(ext: Seq<char>, allow_svg: bool) -> bool {
    ||| ext == "jpg"@
    ||| ext == "jpeg"@
    ||| ext == "png"@
    ||| ext == "gif"@
    ||| ext == "webp"@
    ||| (allow_svg && ext == "svg"@)
}

/// Whether an upload with this file name and size is accepted.
pub open spec fn spec_upload_ok(filename: Seq<char>, size: nat, allow_svg: bool) -> bool {
    spec_extension_allowed(lower_of(spec_extension(filename)), allow_svg) && size <= MAX_FILE_SIZE
}

/// Validates an upload before any byte is stored: the file name's
/// extension, lower-cased, must be an accepted image type, and the file
/// must fit the size cap. Returns the lower-cased extension, under which
/// the file is stored.
pub fn validate_upload(filename: &str, size: usize, allow_svg: bool) -> (r: Result<
    String,
    ApiError,
>)
    ensures
        match r {
            Ok(ext) => spec_upload_ok(filename@, size as nat, allow_svg) && ext@ == lower_of(
                spec_extension(filename@),
            ),
            Err(e) => {
                &&& !spec_upload_ok(filename@, size as nat, allow_svg)
                &&& e matches ApiError::BadRequest(m)
                &&& (!spec_extension_allowed(lower_of(spec_extension(filename@)), allow_svg) ==> m@
                    == (if allow_svg {
                    "Invalid file type. Allowed: jpg, jpeg, png, gif, webp, svg"@
                } else {
                    "Invalid file type. Allowed: jpg, jpeg, png, gif, webp"@
                }))
                &&& (spec_extension_allowed(lower_of(spec_extension(filename@)), allow_svg) ==> m@
                    == "File too large. Maximum size is 5MB"@)
            },
        },
{
    let segments = split_char(filename, '.');
    proof {
        lemma_spec_split_len(filename@, '.');
        assert(segments@.map_values(|p: String| p@).len() == spec_split(filename@, '.').len());
        assert(segments@.map_values(|p: String| p@)[segments@.len() - 1] == segments@[segments@.len()
            - 1]@);
    }
    let last = segments.len() - 1;
    let ext = to_lowercase(segments[last].as_str());
    let allowed = str_eq(ext.as_str(), "jpg") || str_eq(ext.as_str(), "jpeg") || str_eq(
        ext.as_str(),
        "png",
    ) || str_eq(ext.as_str(), "gif") || str_eq(ext.as_str(), "webp") || (allow_svg && str_eq(
        ext.as_str(),
        "svg",
    ));
    if !allowed {
        if allow_svg {
            return Err(
                ApiError::BadRequest(
                    String::from_str("Invalid file type. Allowed: jpg, jpeg, png, gif, webp, svg"),
                ),
            );
        } else {
            return Err(
                ApiError::BadRequest(
                    String::from_str("Invalid file type. Allowed: jpg, jpeg, png, gif, webp"),
                ),
            );
        }
    }
    if size > MAX_FILE_SIZE {
        return Err(ApiError::BadRequest(String::from_str("File too large. Maximum size is 5MB")));
    }
    Ok(ext)
}

} // verus!
