//! Subtitle font bookkeeping.
//!
//! Fonts extracted from containers are saved under sanitized names in one
//! fonts directory; whether a font is already installed is judged by
//! comparing file stems case-insensitively.  Directory walking and file
//! writing are plain I/O outside the library.

use vstd::prelude::*;

use crate::text::{
    bytes_to_hex, chars_eq, chars_to_string, hex_of_bytes, lower_chars_vec, rfind_char,
    spec_rfind, str_chars, subrange_chars, to_lower_chars,
};

verus! {

/// One stored font file.
pub struct FontInfo {
    pub filename: String,
    pub hash: String,
    pub path: String,
}

/// The fonts directory.
pub struct FontManager {
    pub fonts_dir: String,
}

impl FontManager {
    /// A manager over the given fonts directory.
    pub fn new(fonts_dir: String) -> (r: Self)
        ensures
            r.fonts_dir == fonts_dir,
    {
        FontManager { fonts_dir }
    }

    /// The directory fonts are saved under.
    pub fn get_fonts_dir(&self) -> (r: String)
        ensures
            r@ == self.fonts_dir@,
    {
        self.fonts_dir.clone()
    }

    /// Where a font of the given name is saved: the sanitized name inside
    /// the fonts directory.
    pub fn font_path(&self, filename: &str) -> (r: String)
        ensures
            r@ == self.fonts_dir@ + "/"@ + spec_sanitize(filename@),
    {
        let mut r = self.fonts_dir.clone();
        r.append("/");
        let s = sanitize_filename(filename);
        r.append(s.as_str());
        r
    }
}

/// Characters that cannot appear in a file name are replaced by
/// underscores.
pub open spec fn spec_sanitize_char(c: char) -> char {
    if c == '/' || c == '\\' || c == ':' || c == '*' || c == '?' || c == '"' || c == '<' || c
        == '>' || c == '|' {
        '_'
    } else {
        c
    }
}

pub open spec fn spec_sanitize(s: Seq<char>) -> Seq<char> {
    s.map_values(|c: char| spec_sanitize_char(c))
}

/// Replace the characters a file name cannot carry by underscores.
pub fn sanitize_filename(filename: &str) -> (r: String)
    ensures
        r@ == spec_sanitize(filename@),
{
    let chars = str_chars(filename);
    let mut out: Vec<char> = Vec::new();
    let mut i: usize = 0;
    while i < chars.len()
        invariant
            i <= chars@.len(),
            chars@ == filename@,
            out@ == spec_sanitize(filename@.subrange(0, i as int)),
        decreases chars@.len() - i,
    {
        let c = chars[i];
        let mapped = if c == '/' || c == '\\' || c == ':' || c == '*' || c == '?' || c == '"' || c
            == '<' || c == '>' || c == '|' {
            '_'
        } else {
            c
        };
        out.push(mapped);
        i = i + 1;
        assert(out@ =~= spec_sanitize(filename@.subrange(0, i as int)));
    }
    assert(out@ =~= spec_sanitize(filename@));
    chars_to_string(&out)
}

/// The MD5 digest of the given bytes.
pub uninterp spec fn md5_of(data: Seq<u8>) -> Seq<u8>;

/// Relies on `md5::compute`: the 16-byte digest depends on the input bytes
/// alone.
#[verifier::external_body]
fn md5_digest(data: &[u8]) -> (r: Vec<u8>)
    ensures
        r@ == md5_of(data@),
        r@.len() == 16,
{
    md5::compute(data).to_vec()
}

/// Describe one stored font: its name, the hex MD5 of the name's UTF-8
/// bytes (a stable id for clients), and its path.
pub fn font_entry(filename: String, path: String) -> (r: FontInfo)
    ensures
        r.filename == filename,
        r.path == path,
        r.hash@ == hex_of_bytes(md5_of(vstd::utf8::encode_utf8(filename@))),
{
    let digest = md5_digest(filename.as_str().as_bytes());
    let hex = bytes_to_hex(&digest);
    let hash = chars_to_string(&hex);
    FontInfo { filename, hash, path }
}

/// The stem of a file name: everything before the last dot, except that a
/// name whose only dot leads it (or that has none) is its own stem.
pub open spec fn spec_stem(s: Seq<char>) -> Seq<char> {
    if spec_rfind(s, '.') <= 0 {
        s
    } else {
        s.subrange(0, spec_rfind(s, '.'))
    }
}

/// Whether two font file names denote the same font: their stems match
/// ASCII-case-insensitively.
pub fn font_stem_matches(a: &str, b: &str) -> (r: bool)
    ensures
        r == (to_lower_chars(spec_stem(a@)) == to_lower_chars(spec_stem(b@))),
{
    let sa = stem_chars(a);
    let sb = stem_chars(b);
    chars_eq(&lower_chars_vec(&sa), &lower_chars_vec(&sb))
}

fn stem_chars(s: &str) -> (r: Vec<char>)
    ensures
        r@ == spec_stem(s@),
{
    let chars = str_chars(s);
    match rfind_char(&chars, '.') {
        Option::Some(i) => {
            if i == 0 {
                chars
            } else {
                subrange_chars(&chars, 0, i)
            }
        },
        Option::None => chars,
    }
}

} // verus!
