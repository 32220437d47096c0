//! Classification of file names by extension.
//!
//! The extension of the final path component, lowercased ASCII-wise, is
//! looked up in a fixed table of image and video types; anything else,
//! including names without an extension, is plain text.
use vstd::prelude::*;
use crate::strutil::{find_last, last_index_of, lemma_last_index_of};

verus! {

/// ASCII lowercasing of a single character.
pub open spec fn lower_char(c: char) -> char {
    let n = c as u32;
    if 65 <= n && n <= 90 {
        ((n + 32) as u8) as char
    } else {
        c
    }
}

/// ASCII lowercasing, character by character.
pub open spec fn lower_chars(s: Seq<char>) -> Seq<char> {
    s.map_values(|c: char| lower_char(c))
}

/// The extension of the final path component: the characters after the last
/// `.`, provided that dot lies after the last `/` and is not the component's
/// first character; empty otherwise.
pub open spec fn spec_extension(p: Seq<char>) -> Seq<char> {
    let ns = last_index_of(p, '/') + 1;
    let d = last_index_of(p, '.');
    if d > ns {
        p.subrange(d + 1, p.len() as int)
    } else {
        Seq::empty()
    }
}

/// The lowercased extensions classified as images.
pub open spec fn is_image_ext(e: Seq<char>) -> bool {
    e == "jpg"@ || e == "jpeg"@ || e == "png"@ || e == "gif"@ || e == "bmp"@ || e == "webp"@
        || e == "svg"@ || e == "ico"@ || e == "tiff"@ || e == "tif"@
}

/// The lowercased extensions classified as videos.
pub open spec fn is_video_ext(e: Seq<char>) -> bool {
    e == "mp4"@ || e == "webm"@ || e == "ogg"@ || e == "mov"@ || e == "avi"@ || e == "mkv"@
        || e == "wmv"@ || e == "flv"@ || e == "m4v"@
}

/// The MIME type for an already-lowercased extension.
pub open spec fn mime_for_lower_ext(e: Seq<char>) -> Seq<char> {
    if e == "jpg"@ || e == "jpeg"@ {
        "image/jpeg"@
    } else if e == "png"@ {
        "image/png"@
    } else if e == "gif"@ {
        "image/gif"@
    } else if e == "bmp"@ {
        "image/bmp"@
    } else if e == "webp"@ {
        "image/webp"@
    } else if e == "svg"@ {
        "image/svg+xml"@
    } else if e == "ico"@ {
        "image/x-icon"@
    } else if e == "tiff"@ || e == "tif"@ {
        "image/tiff"@
    } else if e == "mp4"@ {
        "video/mp4"@
    } else if e == "webm"@ {
        "video/webm"@
    } else if e == "ogg"@ {
        "video/ogg"@
    } else if e == "mov"@ {
        "video/quicktime"@
    } else if e == "avi"@ {
        "video/x-msvideo"@
    } else if e == "mkv"@ {
        "video/x-matroska"@
    } else if e == "wmv"@ {
        "video/x-ms-wmv"@
    } else if e == "flv"@ {
        "video/x-flv"@
    } else if e == "m4v"@ {
        "video/x-m4v"@
    } else {
        "text/plain"@
    }
}

/// The MIME type classified for the file name `p`.
pub open spec fn spec_mime_type(p: Seq<char>) -> Seq<char> {
    mime_for_lower_ext(lower_chars(spec_extension(p)))
}

/// `p` names an image file.
pub open spec fn spec_is_image(p: Seq<char>) -> bool {
    is_image_ext(lower_chars(spec_extension(p)))
}

/// `p` names a video file.
pub open spec fn spec_is_video(p: Seq<char>) -> bool {
    is_video_ext(lower_chars(spec_extension(p)))
}

/// The extension of the final path component of `path`, empty if it has none.
fn extension_of<'a>(path: &'a str) -> (r: &'a str)
    ensures
        r@ == spec_extension(path@),
{
    let len = path.unicode_len();
    let ns = match find_last(path, '/') {
        Some(j) => j + 1,
        None => 0,
    };
    proof {
        lemma_last_index_of(path@, '/');
    }
    match find_last(path, '.') {
        Some(d) => {
            if d > ns {
                path.substring_char(d + 1, len)
            } else {
                proof {
                    reveal_strlit("");
                }
                ""
            }
        },
        None => {
            proof {
                reveal_strlit("");
            }
            ""
        },
    }
}

/// ASCII lowercasing of a single character.
fn lower_char_exec(c: char) -> (r: char)
    ensures
        r == lower_char(c),
{
    let n = c as u32;
    if 65 <= n && n <= 90 {
        ((n + 32) as u8) as char
    } else {
        c
    }
}

/// Compares the ASCII lowercasing of `e` against the literal `lit`.
fn lower_matches(e: &str, lit: &str) -> (r: bool)
    ensures
        r == (lower_chars(e@) == lit@),
{
    let el = e.unicode_len();
    let ll = lit.unicode_len();
    if el != ll {
        return false;
    }
    let mut i: usize = 0;
    while i < el
        invariant
            el == e@.len(),
            el == lit@.len(),
            0 <= i <= el,
            forall|k: int| 0 <= k < i ==> lower_chars(e@)[k] == lit@[k],
        decreases el - i,
    {
        let lc = lower_char_exec(e.get_char(i));
        if lc != lit.get_char(i) {
            return false;
        }
        i = i + 1;
    }
    proof {
        assert(lower_chars(e@) =~= lit@);
    }
    true
}

/// The MIME type for `file_path`, from its lowercased extension.
pub fn get_mime_type(file_path: &str) -> (r: &'static str)
    ensures
        r@ == spec_mime_type(file_path@),
{
    let ext = extension_of(file_path);
    if lower_matches(ext, "jpg") || lower_matches(ext, "jpeg") {
        "image/jpeg"
    } else if lower_matches(ext, "png") {
        "image/png"
    } else if lower_matches(ext, "gif") {
        "image/gif"
    } else if lower_matches(ext, "bmp") {
        "image/bmp"
    } else if lower_matches(ext, "webp") {
        "image/webp"
    } else if lower_matches(ext, "svg") {
        "image/svg+xml"
    } else if lower_matches(ext, "ico") {
        "image/x-icon"
    } else if lower_matches(ext, "tiff") || lower_matches(ext, "tif") {
        "image/tiff"
    } else if lower_matches(ext, "mp4") {
        "video/mp4"
    } else if lower_matches(ext, "webm") {
        "video/webm"
    } else if lower_matches(ext, "ogg") {
        "video/ogg"
    } else if lower_matches(ext, "mov") {
        "video/quicktime"
    } else if lower_matches(ext, "avi") {
        "video/x-msvideo"
    } else if lower_matches(ext, "mkv") {
        "video/x-matroska"
    } else if lower_matches(ext, "wmv") {
        "video/x-ms-wmv"
    } else if lower_matches(ext, "flv") {
        "video/x-flv"
    } else if lower_matches(ext, "m4v") {
        "video/x-m4v"
    } else {
        "text/plain"
    }
}

/// Whether `file_path` names an image file.
pub fn is_image_file(file_path: &str) -> (r: bool)
    ensures
        r == spec_is_image(file_path@),
{
    let ext = extension_of(file_path);
    lower_matches(ext, "jpg") || lower_matches(ext, "jpeg") || lower_matches(ext, "png")
        || lower_matches(ext, "gif") || lower_matches(ext, "bmp") || lower_matches(ext, "webp")
        || lower_matches(ext, "svg") || lower_matches(ext, "ico") || lower_matches(ext, "tiff")
        || lower_matches(ext, "tif")
}

/// Whether `file_path` names a video file.
pub fn is_video_file(file_path: &str) -> (r: bool)
    ensures
        r == spec_is_video(file_path@),
{
    let ext = extension_of(file_path);
    lower_matches(ext, "mp4") || lower_matches(ext, "webm") || lower_matches(ext, "ogg")
        || lower_matches(ext, "mov") || lower_matches(ext, "avi") || lower_matches(ext, "mkv")
        || lower_matches(ext, "wmv") || lower_matches(ext, "flv") || lower_matches(ext, "m4v")
}

proof fn lemma_last_index_lower(p: Seq<char>, c: char)
    requires
        c == '/' || c == '.',
    ensures
        last_index_of(lower_chars(p), c) == last_index_of(p, c),
    decreases p.len(),
{
    if p.len() > 0 {
        assert(lower_chars(p).last() == lower_char(p.last()));
        assert(lower_char(p.last()) == c <==> p.last() == c);
        if p.last() != c {
            lemma_last_index_lower(p.drop_last(), c);
            assert(lower_chars(p).drop_last() =~= lower_chars(p.drop_last()));
        }
    }
}

/// MIME classification is ASCII-case-insensitive: lowercasing a file name
/// does not change its classified type, nor whether it counts as an image
/// or a video.
pub proof fn lemma_mime_case_insensitive(p: Seq<char>)
    ensures
        spec_mime_type(lower_chars(p)) == spec_mime_type(p),
        spec_is_image(lower_chars(p)) == spec_is_image(p),
        spec_is_video(lower_chars(p)) == spec_is_video(p),
{
    lemma_last_index_lower(p, '/');
    lemma_last_index_lower(p, '.');
    lemma_last_index_of(p, '/');
    lemma_last_index_of(p, '.');
    assert(lower_chars(p).len() == p.len());
    let lp = lower_chars(p);
    let ns = last_index_of(p, '/') + 1;
    let d = last_index_of(p, '.');
    if d > ns {
        assert forall|k: int| 0 <= k < p.len() - d - 1 implies #[trigger] lp.subrange(
            d + 1,
            lp.len() as int,
        )[k] == lower_chars(p.subrange(d + 1, p.len() as int))[k] by {
            assert(lp[d + 1 + k] == lower_char(p[d + 1 + k]));
            assert(p.subrange(d + 1, p.len() as int)[k] == p[d + 1 + k]);
        }
    } else {
        assert(lower_chars(Seq::<char>::empty()) =~= Seq::<char>::empty());
    }
    assert(spec_extension(lower_chars(p)) =~= lower_chars(spec_extension(p)));
    assert(lower_chars(lower_chars(spec_extension(p))) =~= lower_chars(spec_extension(p)));
}

} // verus!
