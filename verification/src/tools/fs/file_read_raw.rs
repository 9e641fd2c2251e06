use vstd::prelude::*;

use crate::error::{ErrorKind, ToolError};
use crate::helpers::encoding::{base64_standard, encode_base64};
use crate::helpers::mime::{chosen_mime, infer_mime, mime_guess_first, mime_type};
use crate::text::{decimal, decimal_chars, push_all, push_str, string_of};

verus! {

/// Largest file returned, in bytes (10 MiB).
pub const MAX_RAW_BYTES: u64 = 10485760u64;

/// The content returned for a file, by the kind its mime type names.
#[derive(Debug)]
pub enum RawContent {
    /// An image, shown as one.
    Image { data: String, mime_type: String },
    /// An audio clip.
    Audio { data: String, mime_type: String },
    /// Any other file, as a blob resource with a `file://` uri.
    Blob { data: String, uri: String, mime_type: String },
}

/// Whether `s` starts with `prefix`.
pub open spec fn starts_with(s: Seq<char>, prefix: Seq<char>) -> bool {
    prefix.len() <= s.len() && s.take(prefix.len() as int) == prefix
}

fn starts_with_exec(s: &str, prefix: &str) -> (r: bool)
    ensures
        r == starts_with(s@, prefix@),
{
    let a = crate::text::chars_of(s);
    let b = crate::text::chars_of(prefix);
    if b.len() > a.len() {
        return false;
    }
    let mut i: usize = 0;
    while i < b.len()
        invariant
            i <= b@.len() <= a@.len(),
            a@ == s@,
            b@ == prefix@,
            forall|j: int| 0 <= j < i ==> a@[j] == b@[j],
        decreases b@.len() - i,
    {
        if a[i] != b[i] {
            proof {
                if a@.take(b@.len() as int) == b@ {
                    assert(a@.take(b@.len() as int)[i as int] == a@[i as int]);
                }
            }
            return false;
        }
        i = i + 1;
    }
    assert(a@.take(b@.len() as int) =~= b@);
    true
}

/// Raw reading arguments.
#[derive(Debug)]
pub struct FileReadRawTool {
    pub path: String,
}

impl FileReadRawTool {
    /// Refuses a file larger than `MAX_RAW_BYTES`, naming its size.
    pub fn check_size(len: u64) -> (r: Result<(), ToolError>)
        ensures
            r is Ok <==> len <= MAX_RAW_BYTES,
            r matches Err(e) ==> e.kind == ErrorKind::InvalidRequest && e.message@ == "file is too large: "@
                + decimal(len as nat) + " bytes (max 10485760)"@,
    {
        if len > MAX_RAW_BYTES {
            let mut out: Vec<char> = Vec::new();
            push_str(&mut out, "file is too large: ");
            let d = decimal_chars(len);
            push_all(&mut out, &d);
            push_str(&mut out, " bytes (max 10485760)");
            return Err(ToolError::invalid_request(string_of(&out)));
        }
        Ok(())
    }

    /// The content for a file's bytes: its mime type (`mime_type`), its base64
    /// data, and the kind that mime type names (`into_content`).
    pub fn content(resolved: &str, bytes: &[u8]) -> (r: RawContent)
        ensures
            content_spec(
                r,
                resolved@,
                chosen_mime(mime_guess_first(resolved@), infer_mime(bytes@)),
                base64_standard(bytes@),
            ),
    {
        let m = mime_type(resolved, bytes);
        let data = encode_base64(bytes);
        into_content(resolved, m, data)
    }
}

/// `r` is the content `into_content` builds for that path, mime type and data.
pub open spec fn content_spec(r: RawContent, path: Seq<char>, mime_type: Seq<char>, data: Seq<char>) -> bool {
    if starts_with(mime_type, "image/"@) {
        r matches RawContent::Image { data: d, mime_type: m } && d@ == data && m@ == mime_type
    } else if starts_with(mime_type, "audio/"@) {
        r matches RawContent::Audio { data: d, mime_type: m } && d@ == data && m@ == mime_type
    } else {
        r matches RawContent::Blob { data: d, uri: u, mime_type: m } && d@ == data && m@ == mime_type
            && u@ == "file://"@ + path
    }
}

/// The kind of content follows the mime type's top-level type and nothing
/// else: an image is returned only for an `image/` type and audio only for an
/// `audio/` type, every other type (`video/`, `text/`, ...) becomes a blob
/// resource at `file://` and the path, and the data and mime type are carried
/// unchanged.
pub proof fn lemma_content_kind_follows_mime(r: RawContent, path: Seq<char>, mime_type: Seq<char>, data: Seq<char>)
    requires
        content_spec(r, path, mime_type, data),
    ensures
        r is Image <==> starts_with(mime_type, "image/"@),
        r is Audio <==> !starts_with(mime_type, "image/"@) && starts_with(mime_type, "audio/"@),
        r is Blob <==> !starts_with(mime_type, "image/"@) && !starts_with(mime_type, "audio/"@),
        match r {
            RawContent::Image { data: d, mime_type: m } => d@ == data && m@ == mime_type,
            RawContent::Audio { data: d, mime_type: m } => d@ == data && m@ == mime_type,
            RawContent::Blob { data: d, uri: u, mime_type: m } => d@ == data && m@ == mime_type && u@
                == "file://"@ + path,
        },
{
}

/// Wraps base64 data by its mime type: `image/...` as an image, `audio/...` as
/// audio, anything else as a blob resource at `file://` and the path.
pub fn into_content(path: &str, mime_type: String, data: String) -> (r: RawContent)
    ensures
        content_spec(r, path@, mime_type@, data@),
{
    if starts_with_exec(mime_type.as_str(), "image/") {
        RawContent::Image { data, mime_type }
    } else if starts_with_exec(mime_type.as_str(), "audio/") {
        RawContent::Audio { data, mime_type }
    } else {
        let mut u: Vec<char> = Vec::new();
        push_str(&mut u, "file://");
        push_str(&mut u, path);
        RawContent::Blob { data, uri: string_of(&u), mime_type }
    }
}

} // verus!
