use vstd::prelude::*;

use crate::error::{ErrorKind, ToolError};
use crate::helpers::encoding::{base64_standard, encode_base64};
use crate::helpers::mime::image_mime_for_path;
use crate::text::{decimal, decimal_chars, push_all, push_str, string_of};

pub use crate::helpers::mime::mime_type_for;

verus! {

/// Largest image returned, in bytes (10 MiB).
pub const MAX_IMAGE_BYTES: u64 = 10485760u64;

/// An image read for the client: its base64 data and its mime type.
#[derive(Debug)]
pub struct ImageData {
    pub data: String,
    pub mime_type: String,
}

/// Image reading arguments.
#[derive(Debug)]
pub struct FileReadImageTool {
    pub path: String,
}

impl FileReadImageTool {
    /// The mime type of the (resolved) image path, from its extension; other
    /// extensions are refused with `unsupported image type: ` and the path.
    pub fn image_type(resolved: &str) -> (r: Result<&'static str, ToolError>)
        ensures
            r is Ok <==> image_mime_for_path(resolved@) is Some,
            r matches Ok(m) ==> image_mime_for_path(resolved@) == Some(m@),
            r matches Err(e) ==> e.kind == ErrorKind::InvalidRequest && e.message@ == "unsupported image type: "@
                + resolved@,
    {
        match mime_type_for(resolved) {
            Some(m) => Ok(m),
            None => {
                let mut out: Vec<char> = Vec::new();
                push_str(&mut out, "unsupported image type: ");
                push_str(&mut out, resolved);
                Err(ToolError::invalid_request(string_of(&out)))
            },
        }
    }

    /// Refuses an image larger than `MAX_IMAGE_BYTES`, naming its size.
    pub fn check_size(len: u64) -> (r: Result<(), ToolError>)
        ensures
            r is Ok <==> len <= MAX_IMAGE_BYTES,
            r matches Err(e) ==> e.kind == ErrorKind::InvalidRequest && e.message@ == "image is too large: "@
                + decimal(len as nat) + " bytes (max 10485760)"@,
    {
        if len > MAX_IMAGE_BYTES {
            let mut out: Vec<char> = Vec::new();
            push_str(&mut out, "image is too large: ");
            let d = decimal_chars(len);
            push_all(&mut out, &d);
            push_str(&mut out, " bytes (max 10485760)");
            return Err(ToolError::invalid_request(string_of(&out)));
        }
        Ok(())
    }

    /// The image content: the bytes in standard base64, with the mime type.
    pub fn encode(bytes: &[u8], mime_type: &str) -> (r: ImageData)
        ensures
            r.data@ == base64_standard(bytes@),
            r.mime_type@ == mime_type@,
    {
        ImageData { data: encode_base64(bytes), mime_type: String::from_str(mime_type) }
    }
}

/// The message for a file that could not be read.
pub fn read_failure(resolved: &str) -> (r: ToolError)
    ensures
        r.kind == ErrorKind::InvalidRequest,
        r.message@ == "failed to read a file: "@ + resolved@,
{
    let mut out: Vec<char> = Vec::new();
    push_str(&mut out, "failed to read a file: ");
    push_str(&mut out, resolved);
    ToolError::invalid_request(string_of(&out))
}

} // verus!
