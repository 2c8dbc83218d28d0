//! The compute half of the upload edge: deriving the stored name and
//! public URL for an uploaded file. Reading the multipart body and
//! writing the bytes to disk stay at the edge; what is decided here —
//! which extension is kept and what the URL looks like — is verified.

use vstd::prelude::*;
use vstd::string::{StringExecFns, StrSliceExecFns};
use crate::models::FileUploadResponse;

verus! {

/// Whether `i` is the position of the last dot of `s`.
pub open spec fn last_dot_at(s: Seq<char>, i: int) -> bool {
    &&& 0 <= i < s.len()
    &&& s[i] == '.'
    &&& forall|j: int| i < j < s.len() ==> s[j] != '.'
}

/// The extension a filename keeps: the characters after its last dot,
/// or `bin` when there is no dot or nothing follows it.
pub open spec fn extension_of(s: Seq<char>) -> Seq<char> {
    if exists|i: int| last_dot_at(s, i) && i < s.len() - 1 {
        let i = choose|i: int| last_dot_at(s, i) && i < s.len() - 1;
        s.subrange(i + 1, s.len() as int)
    } else {
        "bin"@
    }
}

/// Extracts the extension of `filename` as `extension_of` describes.
#[verifier::loop_isolation(false)]
pub fn file_extension(filename: &str) -> (r: String)
    ensures
        r@ == extension_of(filename@),
{
    let n = filename.unicode_len();
    let mut k: usize = n;
    while k > 0
        invariant
            k <= n,
            n == filename@.len(),
            forall|j: int| k <= j < n ==> filename@[j] != '.',
        decreases k,
    {
        if filename.get_char(k - 1) == '.' {
            proof {
                assert(last_dot_at(filename@, k - 1));
            }
            if k < n {
                proof {
                    let i = choose|i: int| last_dot_at(filename@, i) && i < filename@.len() - 1;
                    assert(last_dot_at(filename@, k - 1) && k - 1 < filename@.len() - 1);
                    if i != k - 1 {
                        if i < k - 1 {
                            assert(filename@[k - 1] != '.');
                        } else {
                            assert(filename@[i] != '.');
                        }
                        assert(false);
                    }
                }
                let ext = filename.substring_char(k, n);
                return String::from_str(ext);
            } else {
                proof {
                    assert forall|i: int| !(last_dot_at(filename@, i) && i < filename@.len()
                        - 1) by {
                        if last_dot_at(filename@, i) && i < filename@.len() - 1 {
                            if i < k - 1 {
                                assert(filename@[k - 1] != '.');
                            }
                            assert(false);
                        }
                    }
                }
                return String::from_str("bin");
            }
        }
        k = k - 1;
    }
    proof {
        assert forall|i: int| !(last_dot_at(filename@, i) && i < filename@.len() - 1) by {
            if last_dot_at(filename@, i) {
                assert(filename@[i] != '.');
            }
        }
    }
    String::from_str("bin")
}

/// Relies on `uuid::Uuid::new_v4` rendered in its hyphenated form: a
/// freshly drawn random identifier of exactly 36 characters. Nothing
/// else is assumed of the value.
#[verifier::external_body]
fn fresh_upload_stem() -> (r: String)
    ensures
        r@.len() == 36,
{
    uuid::Uuid::new_v4().to_string()
}

/// Decides what an upload is stored and served as: a fresh random stem
/// with the original filename's extension, under the uploads prefix.
/// The response echoes the original filename, declared media type and
/// size.
pub fn build_file_upload(
    filename: &String,
    mime_type: Option<String>,
    size_bytes: i64,
) -> (r: FileUploadResponse)
    ensures
        r.filename@ == filename@,
        crate::models::opt_string_view(r.mime_type) == crate::models::opt_string_view(mime_type),
        r.size_bytes == size_bytes,
        exists|stem: Seq<char>|
            stem.len() == 36 && r.url@ == #[trigger] ("/uploads/"@ + stem + "."@ + extension_of(
                filename@,
            )),
{
    let stem = fresh_upload_stem();
    let ext = file_extension(filename.as_str());
    let url = String::from_str("/uploads/").concat(stem.as_str()).concat(".").concat(ext.as_str());
    proof {
        assert(url@ == "/uploads/"@ + stem@ + "."@ + extension_of(filename@));
    }
    FileUploadResponse { url, filename: filename.clone(), mime_type, size_bytes }
}

} // verus!
