use vstd::prelude::*;

use crate::path::{components, components_of, PathComponent};

verus! {

/// The mime type used when neither the extension nor the content tells one.
pub const DEFAULT_MIME_TYPE: &'static str = "application/octet-stream";

/// The index of the last `.` in `f`, or -1 when there is none.
pub open spec fn last_dot(f: Seq<char>) -> int
    decreases f.len(),
{
    if f.len() == 0 {
        -1
    } else if f.last() == '.' {
        f.len() - 1
    } else {
        last_dot(f.drop_last())
    }
}

/// `Path::extension`: the text after the last `.` of the file name (the last
/// component, when it is a name); none when the name has no `.` or only a
/// leading one.
pub open spec fn path_extension(path: Seq<char>) -> Option<Seq<char>> {
    let cs = components(path);
    if cs.len() > 0 && cs.last() is Normal {
        let f = cs.last()->Normal_0;
        let d = last_dot(f);
        if d <= 0 {
            None
        } else {
            Some(f.skip(d + 1))
        }
    } else {
        None
    }
}

/// The extension of a path, as `path_extension` states.
pub fn path_extension_exec(path: &str) -> (r: Option<Vec<char>>)
    ensures
        match r {
            Some(e) => path_extension(path@) == Some(e@),
            None => path_extension(path@) is None,
        },
{
    let cs = components_of(path);
    let n = cs.len();
    if n == 0 {
        return None;
    }
    let f = match &cs[n - 1] {
        PathComponent::Normal(f) => f,
        _ => {
            return None;
        },
    };
    let mut k: usize = f.len();
    assert(f@.take(k as int) =~= f@);
    while k > 0 && f[k - 1] != '.'
        invariant
            k <= f@.len(),
            last_dot(f@) == last_dot(f@.take(k as int)),
        decreases k,
    {
        assert(f@.take(k as int).drop_last() =~= f@.take(k - 1));
        k = k - 1;
    }
    proof {
        assert(f@.take(f@.len() as int) =~= f@);
        if k > 0 {
            assert(f@.take(k as int).last() == '.');
            assert(last_dot(f@.take(k as int)) == k - 1);
        } else {
            assert(f@.take(0) =~= Seq::<char>::empty());
        }
    }
    if k <= 1 {
        return None;
    }
    let mut e: Vec<char> = Vec::new();
    let mut i: usize = k;
    while i < f.len()
        invariant
            k <= i <= f@.len(),
            e@ == f@.subrange(k as int, i as int),
        decreases f@.len() - i,
    {
        e.push(f[i]);
        assert(f@.subrange(k as int, i + 1) =~= f@.subrange(k as int, i as int).push(f@[i as int]));
        i = i + 1;
    }
    assert(f@.subrange(k as int, f@.len() as int) =~= f@.skip(k as int));
    Some(e)
}

/// `char::to_ascii_lowercase`.
pub open spec fn ascii_lower(c: char) -> char {
    if 'A' <= c && c <= 'Z' {
        ((c as u32) + 32) as char
    } else {
        c
    }
}

/// `str::to_ascii_lowercase`.
pub open spec fn ascii_lowercase(s: Seq<char>) -> Seq<char> {
    s.map_values(|c: char| ascii_lower(c))
}

pub fn ascii_lowercase_exec(s: &Vec<char>) -> (r: Vec<char>)
    ensures
        r@ == ascii_lowercase(s@),
{
    let mut out: Vec<char> = Vec::new();
    let mut i: usize = 0;
    while i < s.len()
        invariant
            i <= s@.len(),
            out@ == ascii_lowercase(s@).take(i as int),
        decreases s@.len() - i,
    {
        let c = s[i];
        let l = if 'A' <= c && c <= 'Z' {
            ((c as u8) + 32) as char
        } else {
            c
        };
        out.push(l);
        assert(ascii_lowercase(s@).take(i + 1) =~= ascii_lowercase(s@).take(i as int).push(l));
        i = i + 1;
    }
    assert(ascii_lowercase(s@).take(s@.len() as int) =~= ascii_lowercase(s@));
    out
}

pub fn eq_text(v: &Vec<char>, s: &str) -> (r: bool)
    ensures
        r == (v@ == s@),
{
    let t = crate::text::chars_of(s);
    if v.len() != t.len() {
        return false;
    }
    let mut i: usize = 0;
    while i < v.len()
        invariant
            i <= v@.len(),
            v@.len() == t@.len(),
            t@ == s@,
            forall|j: int| 0 <= j < i ==> v@[j] == t@[j],
        decreases v@.len() - i,
    {
        if v[i] != t[i] {
            return false;
        }
        i = i + 1;
    }
    assert(v@ =~= t@);
    true
}

/// The image mime type of a lower-case extension, if it names an image format.
pub open spec fn image_mime(ext: Seq<char>) -> Option<Seq<char>> {
    if ext == "png"@ {
        Some("image/png"@)
    } else if ext == "jpg"@ || ext == "jpeg"@ {
        Some("image/jpeg"@)
    } else if ext == "gif"@ {
        Some("image/gif"@)
    } else if ext == "webp"@ {
        Some("image/webp"@)
    } else if ext == "bmp"@ {
        Some("image/bmp"@)
    } else if ext == "svg"@ {
        Some("image/svg+xml"@)
    } else if ext == "ico"@ {
        Some("image/x-icon"@)
    } else if ext == "tif"@ || ext == "tiff"@ {
        Some("image/tiff"@)
    } else if ext == "avif"@ {
        Some("image/avif"@)
    } else {
        None
    }
}

/// The image mime type of a path, from its extension compared case-insensitively.
pub open spec fn image_mime_for_path(path: Seq<char>) -> Option<Seq<char>> {
    match path_extension(path) {
        Some(e) => image_mime(ascii_lowercase(e)),
        None => None,
    }
}

/// The image mime type of a path, as `image_mime_for_path` states.
pub fn mime_type_for(path: &str) -> (r: Option<&'static str>)
    ensures
        match r {
            Some(m) => image_mime_for_path(path@) == Some(m@),
            None => image_mime_for_path(path@) is None,
        },
{
    let ext = match path_extension_exec(path) {
        Some(e) => e,
        None => return None,
    };
    let e = ascii_lowercase_exec(&ext);
    if eq_text(&e, "png") {
        Some("image/png")
    } else if eq_text(&e, "jpg") || eq_text(&e, "jpeg") {
        Some("image/jpeg")
    } else if eq_text(&e, "gif") {
        Some("image/gif")
    } else if eq_text(&e, "webp") {
        Some("image/webp")
    } else if eq_text(&e, "bmp") {
        Some("image/bmp")
    } else if eq_text(&e, "svg") {
        Some("image/svg+xml")
    } else if eq_text(&e, "ico") {
        Some("image/x-icon")
    } else if eq_text(&e, "tif") || eq_text(&e, "tiff") {
        Some("image/tiff")
    } else if eq_text(&e, "avif") {
        Some("image/avif")
    } else {
        None
    }
}

/// The essence (`type/subtype`) of the first mime type `mime_guess` associates
/// with the extension of `path`, if any.
pub uninterp spec fn mime_guess_first(path: Seq<char>) -> Option<Seq<char>>;

/// The mime type `infer` detects from the leading (magic) bytes of a content, if any.
pub uninterp spec fn infer_mime(bytes: Seq<u8>) -> Option<Seq<char>>;

/// Calls `mime_guess::from_path(path).first()` and takes the essence of the
/// mime type it gives. The claim beyond the name: `from_path` looks only at the
/// extension (`Path::extension`), so a path without one gets no guess.
#[verifier::external_body]
fn guess_from_extension(path: &str) -> (r: Option<String>)
    ensures
        match r {
            Some(m) => mime_guess_first(path@) == Some(m@),
            None => mime_guess_first(path@) is None,
        },
        path_extension(path@) is None ==> r is None,
{
    ::mime_guess::from_path(path).first().map(|m| m.essence_str().to_owned())
}

/// Calls `infer::get(bytes)` and takes the mime type of the kind it detects.
#[verifier::external_body]
fn sniff_content(bytes: &[u8]) -> (r: Option<&'static str>)
    ensures
        match r {
            Some(m) => infer_mime(bytes@) == Some(m@),
            None => infer_mime(bytes@) is None,
        },
{
    ::infer::get(bytes).map(|t| t.mime_type())
}

/// The mime type chosen from a guess by extension and a guess by content: the
/// extension wins, then the content, then `application/octet-stream`.
pub open spec fn chosen_mime(by_extension: Option<Seq<char>>, by_content: Option<Seq<char>>) -> Seq<char> {
    match by_extension {
        Some(m) => m,
        None => match by_content {
            Some(m) => m,
            None => DEFAULT_MIME_TYPE@,
        },
    }
}

/// Picks the mime type from the two guesses, as `chosen_mime` states.
pub fn choose_mime(by_extension: Option<String>, by_content: Option<&str>) -> (r: String)
    ensures
        r@ == chosen_mime(
            match by_extension {
                Some(m) => Some(m@),
                None => None,
            },
            match by_content {
                Some(m) => Some(m@),
                None => None,
            },
        ),
{
    match by_extension {
        Some(m) => m,
        None => match by_content {
            Some(m) => String::from_str(m),
            None => String::from_str(DEFAULT_MIME_TYPE),
        },
    }
}

/// The mime type of a file: guessed from the extension of its path, else
/// sniffed from its content, else `application/octet-stream`.
pub fn mime_type(path: &str, bytes: &[u8]) -> (r: String)
    ensures
        r@ == chosen_mime(mime_guess_first(path@), infer_mime(bytes@)),
{
    let guessed = guess_from_extension(path);
    match guessed {
        Some(m) => m,
        None => {
            let sniffed = sniff_content(bytes);
            choose_mime(None, sniffed)
        },
    }
}

} // verus!
