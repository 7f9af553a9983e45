//! File classification helpers around uploads: the magic-number signature
//! table, the extension→MIME mapping, and the single-component path check
//! that prevents directory traversal.

use vstd::prelude::*;
use vstd::string::StringSliceAdditionalSpecFns;

verus! {

/// The file type and MIME type a content prefix declares, by its magic
/// number. A prefix matching none of the known signatures is `None`; the
/// caller falls back to content heuristics.
pub open spec fn spec_file_signature(s: Seq<u8>) -> Option<(Seq<char>, Seq<char>)> {
    if s.len() >= 3 && s[0] == 0xFF && s[1] == 0xD8 && s[2] == 0xFF {
        Some((("JPEG")@, ("image/jpeg")@))
    } else if s.len() >= 4 && s[0] == 0x89 && s[1] == 0x50 && s[2] == 0x4E && s[3] == 0x47 {
        Some((("PNG")@, ("image/png")@))
    } else if s.len() >= 3 && s[0] == 0x47 && s[1] == 0x49 && s[2] == 0x46 {
        Some((("GIF")@, ("image/gif")@))
    } else if s.len() >= 4 && s[0] == 0x3C && s[1] == 0x73 && s[2] == 0x76 && s[3] == 0x67 {
        Some((("SVG")@, ("image/svg+xml")@))
    } else if s.len() >= 4 && s[0] == 0x25 && s[1] == 0x50 && s[2] == 0x44 && s[3] == 0x46 {
        Some((("PDF")@, ("application/pdf")@))
    } else if s.len() >= 4 && s[0] == 0x50 && s[1] == 0x4B && s[2] == 0x03 && s[3] == 0x04 {
        Some(
            (
                ("DOCX")@,
                ("application/vnd.openxmlformats-officedocument.wordprocessingml.document")@,
            ),
        )
    } else if s.len() >= 8 && s[0] == 0xD0 && s[1] == 0xCF && s[2] == 0x11 && s[3] == 0xE0 && s[4]
        == 0xA1 && s[5] == 0xB1 && s[6] == 0x1A && s[7] == 0xE1 {
        Some((("DOC")@, ("application/msword")@))
    } else if s.len() >= 3 && s[0] == 0x49 && s[1] == 0x44 && s[2] == 0x33 {
        Some((("MP3")@, ("audio/mpeg")@))
    } else if s.len() >= 4 && s[0] == 0x52 && s[1] == 0x49 && s[2] == 0x46 && s[3] == 0x46 {
        Some((("WAV")@, ("audio/wav")@))
    } else if s.len() >= 12 && s[0] == 0x00 && s[1] == 0x00 && s[2] == 0x00 && s[3] == 0x18 && s[4]
        == 0x66 && s[5] == 0x74 && s[6] == 0x79 && s[7] == 0x70 && s[8] == 0x6D && s[9] == 0x70
        && s[10] == 0x34 && s[11] == 0x32 {
        Some((("MP4")@, ("video/mp4")@))
    } else if s.len() >= 4 && s[0] == 0x1A && s[1] == 0x45 && s[2] == 0xDF && s[3] == 0xA3 {
        Some((("MKV")@, ("video/x-matroska")@))
    } else if s.len() >= 1 && s[0] == 0x7B {
        Some((("JSON")@, ("application/json")@))
    } else if s.len() >= 5 && s[0] == 0x3C && s[1] == 0x3F && s[2] == 0x78 && s[3] == 0x6D && s[4]
        == 0x6C {
        Some((("XML")@, ("application/xml")@))
    } else {
        None
    }
}

/// Detect a file's type from its magic number alone.
pub fn detect_file_type_by_signature(bytes: &[u8]) -> (r: Option<(String, String)>)
    ensures
        (match (r, spec_file_signature(bytes@)) {
            (Some(v), Some(s)) => v.0@ == s.0 && v.1@ == s.1,
            (None, None) => true,
            _ => false,
        }),
{
    let n = bytes.len();
    if n >= 3 && bytes[0] == 0xFF && bytes[1] == 0xD8 && bytes[2] == 0xFF {
        Some((String::from_str("JPEG"), String::from_str("image/jpeg")))
    } else if n >= 4 && bytes[0] == 0x89 && bytes[1] == 0x50 && bytes[2] == 0x4E && bytes[3]
        == 0x47 {
        Some((String::from_str("PNG"), String::from_str("image/png")))
    } else if n >= 3 && bytes[0] == 0x47 && bytes[1] == 0x49 && bytes[2] == 0x46 {
        Some((String::from_str("GIF"), String::from_str("image/gif")))
    } else if n >= 4 && bytes[0] == 0x3C && bytes[1] == 0x73 && bytes[2] == 0x76 && bytes[3]
        == 0x67 {
        Some((String::from_str("SVG"), String::from_str("image/svg+xml")))
    } else if n >= 4 && bytes[0] == 0x25 && bytes[1] == 0x50 && bytes[2] == 0x44 && bytes[3]
        == 0x46 {
        Some((String::from_str("PDF"), String::from_str("application/pdf")))
    } else if n >= 4 && bytes[0] == 0x50 && bytes[1] == 0x4B && bytes[2] == 0x03 && bytes[3]
        == 0x04 {
        Some(
            (
                String::from_str("DOCX"),
                String::from_str(
                    "application/vnd.openxmlformats-officedocument.wordprocessingml.document",
                ),
            ),
        )
    } else if n >= 8 && bytes[0] == 0xD0 && bytes[1] == 0xCF && bytes[2] == 0x11 && bytes[3]
        == 0xE0 && bytes[4] == 0xA1 && bytes[5] == 0xB1 && bytes[6] == 0x1A && bytes[7] == 0xE1 {
        Some((String::from_str("DOC"), String::from_str("application/msword")))
    } else if n >= 3 && bytes[0] == 0x49 && bytes[1] == 0x44 && bytes[2] == 0x33 {
        Some((String::from_str("MP3"), String::from_str("audio/mpeg")))
    } else if n >= 4 && bytes[0] == 0x52 && bytes[1] == 0x49 && bytes[2] == 0x46 && bytes[3]
        == 0x46 {
        Some((String::from_str("WAV"), String::from_str("audio/wav")))
    } else if n >= 12 && bytes[0] == 0x00 && bytes[1] == 0x00 && bytes[2] == 0x00 && bytes[3]
        == 0x18 && bytes[4] == 0x66 && bytes[5] == 0x74 && bytes[6] == 0x79 && bytes[7] == 0x70
        && bytes[8] == 0x6D && bytes[9] == 0x70 && bytes[10] == 0x34 && bytes[11] == 0x32 {
        Some((String::from_str("MP4"), String::from_str("video/mp4")))
    } else if n >= 4 && bytes[0] == 0x1A && bytes[1] == 0x45 && bytes[2] == 0xDF && bytes[3]
        == 0xA3 {
        Some((String::from_str("MKV"), String::from_str("video/x-matroska")))
    } else if n >= 1 && bytes[0] == 0x7B {
        Some((String::from_str("JSON"), String::from_str("application/json")))
    } else if n >= 5 && bytes[0] == 0x3C && bytes[1] == 0x3F && bytes[2] == 0x78 && bytes[3]
        == 0x6D && bytes[4] == 0x6C {
        Some((String::from_str("XML"), String::from_str("application/xml")))
    } else {
        None
    }
}

/// The bytes after the last dot of a file name; `None` for a name without
/// an extension (no dot, or only a leading one).
pub open spec fn spec_extension(s: Seq<u8>) -> Option<Seq<u8>>
    decreases s.len(),
{
    if s.len() <= 1 {
        None
    } else if s.last() == 46 {
        Some(Seq::empty())
    } else {
        match spec_extension(s.drop_last()) {
            Some(e) => Some(e.push(s.last())),
            None => None,
        }
    }
}

/// The MIME type registered for a file extension.
pub open spec fn spec_mime_for(ext: Seq<u8>) -> Option<Seq<char>> {
    if ext == ("jpg").spec_bytes() || ext == ("jpeg").spec_bytes() {
        Some(("image/jpeg")@)
    } else if ext == ("png").spec_bytes() {
        Some(("image/png")@)
    } else if ext == ("gif").spec_bytes() {
        Some(("image/gif")@)
    } else if ext == ("svg").spec_bytes() {
        Some(("image/svg+xml")@)
    } else if ext == ("pdf").spec_bytes() {
        Some(("application/pdf")@)
    } else if ext == ("zip").spec_bytes() {
        Some(("application/zip")@)
    } else if ext == ("mp3").spec_bytes() {
        Some(("audio/mpeg")@)
    } else if ext == ("wav").spec_bytes() {
        Some(("audio/wav")@)
    } else if ext == ("mp4").spec_bytes() {
        Some(("video/mp4")@)
    } else if ext == ("mkv").spec_bytes() {
        Some(("video/x-matroska")@)
    } else if ext == ("json").spec_bytes() {
        Some(("application/json")@)
    } else if ext == ("xml").spec_bytes() {
        Some(("application/xml")@)
    } else if ext == ("txt").spec_bytes() {
        Some(("text/plain")@)
    } else {
        None
    }
}

/// No byte after position zero is a dot, so the name has no extension.
proof fn lemma_extension_none(s: Seq<u8>)
    requires
        forall|j: int| 1 <= j < s.len() ==> s[j] != 46,
    ensures
        spec_extension(s) is None,
    decreases s.len(),
{
    if s.len() > 1 {
        lemma_extension_none(s.drop_last());
    }
}

/// The extension is the suffix after the last dot, when that dot is not the
/// leading byte.
proof fn lemma_extension_at(s: Seq<u8>, idx: int)
    requires
        0 < idx < s.len(),
        s[idx] == 46,
        forall|j: int| idx < j < s.len() ==> s[j] != 46,
    ensures
        spec_extension(s) == Some(s.subrange(idx + 1, s.len() as int)),
    decreases s.len(),
{
    if idx == s.len() - 1 {
        assert(s.subrange(idx + 1, s.len() as int) =~= Seq::<u8>::empty());
    } else {
        lemma_extension_at(s.drop_last(), idx);
        assert(s.drop_last().subrange(idx + 1, s.len() - 1).push(s.last()) =~= s.subrange(
            idx + 1,
            s.len() as int,
        ));
    }
}

fn str_eq_bytes(a: &[u8], b: &str) -> (r: bool)
    ensures
        r == (a@ == b.spec_bytes()),
{
    let bb = b.as_bytes();
    let r = matches!(crate::content::compare_bytes(a, bb), crate::content::KeyOrder::Equal);
    r
}

/// Map a file name to the MIME type its extension declares: `Some` exactly
/// when the name has an extension with a registered MIME type.
pub fn get_content_type(file_name: &str) -> (r: Option<String>)
    ensures
        (match (r, spec_extension(file_name.spec_bytes())) {
            (Some(m), Some(e)) => spec_mime_for(e) == Some(m@),
            (None, Some(e)) => spec_mime_for(e) is None,
            (None, None) => true,
            _ => false,
        }),
{
    let bytes = file_name.as_bytes();
    let n = bytes.len();
    // Scan backwards for the last dot; a dot in the leading position does
    // not begin an extension.
    let mut i: usize = n;
    while i > 1
        invariant
            i <= n,
            n == bytes@.len(),
            bytes@ == file_name.spec_bytes(),
            forall|j: int| i <= j < n ==> bytes@[j] != 46,
        decreases i,
    {
        if bytes[i - 1] == 46 {
            let ext = &bytes[i..n];
            proof {
                lemma_extension_at(bytes@, i - 1);
                assert(ext@ =~= bytes@.subrange(i as int, n as int));
            }
            return if str_eq_bytes(ext, "jpg") || str_eq_bytes(ext, "jpeg") {
                Some(String::from_str("image/jpeg"))
            } else if str_eq_bytes(ext, "png") {
                Some(String::from_str("image/png"))
            } else if str_eq_bytes(ext, "gif") {
                Some(String::from_str("image/gif"))
            } else if str_eq_bytes(ext, "svg") {
                Some(String::from_str("image/svg+xml"))
            } else if str_eq_bytes(ext, "pdf") {
                Some(String::from_str("application/pdf"))
            } else if str_eq_bytes(ext, "zip") {
                Some(String::from_str("application/zip"))
            } else if str_eq_bytes(ext, "mp3") {
                Some(String::from_str("audio/mpeg"))
            } else if str_eq_bytes(ext, "wav") {
                Some(String::from_str("audio/wav"))
            } else if str_eq_bytes(ext, "mp4") {
                Some(String::from_str("video/mp4"))
            } else if str_eq_bytes(ext, "mkv") {
                Some(String::from_str("video/x-matroska"))
            } else if str_eq_bytes(ext, "json") {
                Some(String::from_str("application/json"))
            } else if str_eq_bytes(ext, "xml") {
                Some(String::from_str("application/xml"))
            } else if str_eq_bytes(ext, "txt") {
                Some(String::from_str("text/plain"))
            } else {
                None
            };
        }
        i = i - 1;
    }
    proof {
        lemma_extension_none(bytes@);
    }
    None
}

/// A path safe to store under: exactly one ordinary component — not empty,
/// no separator, and neither of the relative components.
pub open spec fn spec_path_is_valid(s: Seq<u8>) -> bool {
    &&& s.len() > 0
    &&& forall|j: int| 0 <= j < s.len() ==> s[j] != 47 && s[j] != 92
    &&& s != (".").spec_bytes()
    &&& s != ("..").spec_bytes()
}

/// Whether a path consists of exactly one ordinary component, so that
/// writing to it cannot traverse directories.
pub fn path_is_valid(path: &str) -> (r: bool)
    ensures
        r == spec_path_is_valid(path.spec_bytes()),
{
    let bytes = path.as_bytes();
    let n = bytes.len();
    if n == 0 {
        return false;
    }
    let mut i: usize = 0;
    while i < n
        invariant
            i <= n,
            n == bytes@.len(),
            n > 0,
            bytes@ == path.spec_bytes(),
            forall|j: int| 0 <= j < i ==> bytes@[j] != 47 && bytes@[j] != 92,
        decreases n - i,
    {
        if bytes[i] == 47 || bytes[i] == 92 {
            return false;
        }
        i = i + 1;
    }
    if str_eq_bytes(bytes, ".") || str_eq_bytes(bytes, "..") {
        return false;
    }
    true
}

} // verus!
