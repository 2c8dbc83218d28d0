//! Content validation: the first gate of the message pipeline. A message
//! must carry non-blank text or at least one attachment, at most
//! `MAX_FILES_PER_MESSAGE` attachments, and no attachment above
//! `MAX_FILE_SIZE_BYTES` declared bytes.

use vstd::prelude::*;
use vstd::string::StrSliceExecFns;
use crate::errors::AppError;
use crate::models::{opt_string_view, FileAssetIn, FileAssetInView};

verus! {

/// The most attachments one message may carry.
pub const MAX_FILES_PER_MESSAGE: usize = 10;

/// The largest declared attachment size accepted, in bytes (10 MiB).
pub const MAX_FILE_SIZE_BYTES: i64 = 10 * 1024 * 1024;

/// The characters with the Unicode `White_Space` property: text made of
/// these alone is blank.
pub open spec fn is_space_char(c: char) -> bool {
    ||| c == ' '
    ||| c == '\t'
    ||| c == '\n'
    ||| c == '\u{000B}'
    ||| c == '\u{000C}'
    ||| c == '\r'
    ||| c == '\u{0085}'
    ||| c == '\u{00A0}'
    ||| c == '\u{1680}'
    ||| ('\u{2000}' <= c && c <= '\u{200A}')
    ||| c == '\u{2028}'
    ||| c == '\u{2029}'
    ||| c == '\u{202F}'
    ||| c == '\u{205F}'
    ||| c == '\u{3000}'
}

pub fn char_is_space(c: char) -> (r: bool)
    ensures
        r == is_space_char(c),
{
    c == ' ' || c == '\t' || c == '\n' || c == '\u{000B}' || c == '\u{000C}' || c == '\r' || c
        == '\u{0085}' || c == '\u{00A0}' || c == '\u{1680}' || ('\u{2000}' <= c && c <= '\u{200A}')
        || c == '\u{2028}' || c == '\u{2029}' || c == '\u{202F}' || c == '\u{205F}' || c
        == '\u{3000}'
}

/// A character sequence is blank when every character is whitespace; the
/// empty sequence is blank.
pub open spec fn seq_is_blank(s: Seq<char>) -> bool {
    forall|i: int| 0 <= i < s.len() ==> is_space_char(s[i])
}

pub fn str_is_blank(s: &str) -> (r: bool)
    ensures
        r == seq_is_blank(s@),
{
    let n = s.unicode_len();
    let mut k: usize = 0;
    while k < n
        invariant
            n == s@.len(),
            k <= n,
            forall|j: int| 0 <= j < k ==> is_space_char(s@[j]),
        decreases n - k,
    {
        if !char_is_space(s.get_char(k)) {
            return false;
        }
        k = k + 1;
    }
    true
}

/// Whether an optional text body counts as blank: absent text is blank.
pub open spec fn content_blank(content: Option<Seq<char>>) -> bool {
    match content {
        Option::Some(s) => seq_is_blank(s),
        Option::None => true,
    }
}

/// The content-validation rule of the pipeline: a submission is rejected
/// exactly when it has neither non-blank text nor an attachment, or has
/// more than `MAX_FILES_PER_MESSAGE` attachments, or declares an
/// attachment above `MAX_FILE_SIZE_BYTES`.
pub open spec fn validation_rejects(content: Option<Seq<char>>, files: Seq<FileAssetInView>) -> bool {
    ||| (content_blank(content) && files.len() == 0)
    ||| files.len() > MAX_FILES_PER_MESSAGE
    ||| exists|i: int| 0 <= i < files.len() && files[i].size_bytes > MAX_FILE_SIZE_BYTES
}

pub fn validate_message(content: &Option<String>, files: &Vec<FileAssetIn>) -> (r: Result<
    (),
    AppError,
>)
    ensures
        r is Ok <==> !validation_rejects(
            opt_string_view(*content),
            files@.map_values(|a: FileAssetIn| a@),
        ),
        r is Err ==> r == Err::<(), AppError>(AppError::ValidationError),
{
    let ghost fv = files@.map_values(|a: FileAssetIn| a@);
    let has_content = match content {
        Option::Some(s) => !str_is_blank(s.as_str()),
        Option::None => false,
    };
    if !has_content && files.len() == 0 {
        return Err(AppError::ValidationError);
    }
    if files.len() > MAX_FILES_PER_MESSAGE {
        return Err(AppError::ValidationError);
    }
    let mut k: usize = 0;
    while k < files.len()
        invariant
            k <= files.len(),
            fv == files@.map_values(|a: FileAssetIn| a@),
            forall|j: int| 0 <= j < k ==> fv[j].size_bytes <= MAX_FILE_SIZE_BYTES,
        decreases files.len() - k,
    {
        if files[k].size_bytes > MAX_FILE_SIZE_BYTES {
            proof {
                assert(fv[k as int].size_bytes > MAX_FILE_SIZE_BYTES);
            }
            return Err(AppError::ValidationError);
        }
        k = k + 1;
    }
    Ok(())
}

/// Law: a frame with blank text and no attachments is always rejected;
/// a frame with non-blank text or at least one attachment, within the
/// count limit and with no oversized attachment, is always accepted.
pub proof fn lemma_content_validation(content: Option<Seq<char>>, files: Seq<FileAssetInView>)
    ensures
        (content_blank(content) && files.len() == 0) ==> validation_rejects(content, files),
        ((!content_blank(content) || files.len() > 0) && files.len() <= MAX_FILES_PER_MESSAGE
            && (forall|i: int|
            0 <= i < files.len() ==> files[i].size_bytes <= MAX_FILE_SIZE_BYTES)) ==> !validation_rejects(
            content,
            files,
        ),
{
}

} // verus!
