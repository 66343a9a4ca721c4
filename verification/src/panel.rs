//! What the overlay's web panel is given: the inlined page, the scripts that talk to it,
//! and the plate image as a data URI.

use vstd::prelude::*;

use crate::text::{eq_ignore_ascii_case, equals_ignore_ascii_case, push_char};

verus! {

// ---- scripts ------------------------------------------------------------------------

/// Sets up the message queue between the application and the page.
pub const INIT_SCRIPT_BASE: &'static str = "
window.__TODOLITE_QUEUE = [];
window.__TODOLITE_HANDLE_RUST = null;
window.__TODOLITE_FROM_RUST = function(message) {
  if (window.__TODOLITE_HANDLE_RUST) {
    window.__TODOLITE_HANDLE_RUST(message);
  } else {
    window.__TODOLITE_QUEUE.push(message);
  }
};
window.__TODOLITE_SET_OVERLAY_VISIBLE = function(visible) {
  document.documentElement.classList.toggle('overlay-visible', !!visible);
};
";

/// How a JSON string literal writes one character: quote and backslash are escaped,
/// the control characters with a short escape use it, the other control characters
/// are written as `\u00XX` with lower-case hex digits, everything else stays.
pub open spec fn json_escape_char(c: char) -> Seq<char> {
    if c == '"' {
        seq!['\\', '"']
    } else if c == '\\' {
        seq!['\\', '\\']
    } else if c == '\u{8}' {
        seq!['\\', 'b']
    } else if c == '\t' {
        seq!['\\', 't']
    } else if c == '\n' {
        seq!['\\', 'n']
    } else if c == '\u{c}' {
        seq!['\\', 'f']
    } else if c == '\r' {
        seq!['\\', 'r']
    } else if (c as u32) < 0x20 {
        seq!['\\', 'u', '0', '0', lower_hex_digit((c as u32) / 16), lower_hex_digit((c as u32) % 16)]
    } else {
        seq![c]
    }
}

pub open spec fn lower_hex_digit(v: u32) -> char {
    if v < 10 {
        (v + 48) as char
    } else {
        (v + 87) as char
    }
}

pub open spec fn json_escape(s: Seq<char>) -> Seq<char>
    decreases s.len(),
{
    if s.len() == 0 {
        Seq::empty()
    } else {
        json_escape(s.drop_last()) + json_escape_char(s.last())
    }
}

/// A text as a JSON string literal.
pub open spec fn json_string_literal(s: Seq<char>) -> Seq<char> {
    seq!['"'] + json_escape(s) + seq!['"']
}

/// The JSON string literal of a text.
/// Trusted: `serde_json::to_string` (serde_json) on a `str`. Serialising a string into
/// memory cannot fail; it writes the text in quotes with the escapes of serde_json's
/// `ESCAPE` table (quote, backslash, `\b \t \n \f \r`, other control characters as
/// `\u00xx`), all other characters unchanged.
#[verifier::external_body]
fn to_json_string(s: &str) -> (r: Option<String>)
    ensures
        r is Some,
        r.unwrap()@ == json_string_literal(s@),
{
    serde_json::to_string(s).ok()
}

/// The page's start-up script: the message queue, then the plate image (a JSON string,
/// or `null` when there is none).
pub open spec fn init_script_text(plate_image: Option<Seq<char>>) -> Seq<char> {
    let value = match plate_image {
        Some(uri) => json_string_literal(uri),
        None => "null"@,
    };
    INIT_SCRIPT_BASE@ + "\nwindow.__TODOLITE_PLATE_IMAGE_DATA = "@ + value + ";\n"@
}

pub fn build_init_script(plate_image: Option<&str>) -> (r: String)
    ensures
        r@ == init_script_text(
            match plate_image {
                Some(u) => Some(u@),
                None => None,
            },
        ),
{
    let value = match plate_image {
        Some(uri) => match to_json_string(uri) {
            Some(q) => q,
            None => "null".to_owned(),
        },
        None => "null".to_owned(),
    };
    let mut script = INIT_SCRIPT_BASE.to_owned();
    script.append("\nwindow.__TODOLITE_PLATE_IMAGE_DATA = ");
    script.append(value.as_str());
    script.append(";\n");
    script
}

/// The script that hands a JSON message to the page.
pub fn message_script(payload_json: &str) -> (r: String)
    ensures
        r@ == "window.__TODOLITE_FROM_RUST("@ + payload_json@ + ");"@,
{
    let mut script = "window.__TODOLITE_FROM_RUST(".to_owned();
    script.append(payload_json);
    script.append(");");
    script
}

/// The script that starts the page's show or hide animation.
pub fn overlay_visibility_script(visible: bool) -> (r: String)
    ensures
        r@ == if visible {
            "window.__TODOLITE_SET_OVERLAY_VISIBLE(true);"@
        } else {
            "window.__TODOLITE_SET_OVERLAY_VISIBLE(false);"@
        },
{
    if visible {
        "window.__TODOLITE_SET_OVERLAY_VISIBLE(true);".to_owned()
    } else {
        "window.__TODOLITE_SET_OVERLAY_VISIBLE(false);".to_owned()
    }
}

// ---- page assembly ----------------------------------------------------------------

/// Every non-overlapping occurrence of `pat`, searched from the left, replaced by `rep`.
pub open spec fn replace_all(s: Seq<char>, pat: Seq<char>, rep: Seq<char>) -> Seq<char>
    decreases s.len(),
{
    if pat.len() == 0 || s.len() < pat.len() {
        s
    } else if s.take(pat.len() as int) == pat {
        rep + replace_all(s.skip(pat.len() as int), pat, rep)
    } else {
        seq![s[0]] + replace_all(s.skip(1), pat, rep)
    }
}

fn starts_at(s: &Vec<char>, i: usize, pat: &Vec<char>) -> (r: bool)
    requires
        i <= s.len(),
    ensures
        r == (i + pat.len() <= s.len() && s@.subrange(i as int, i + pat.len()) == pat@),
{
    if pat.len() > s.len() - i {
        return false;
    }
    let mut k: usize = 0;
    while k < pat.len()
        invariant
            k <= pat.len(),
            i + pat.len() <= s.len(),
            forall|j: int| 0 <= j < k ==> s@[i + j] == pat@[j],
        decreases pat.len() - k,
    {
        if s[i + k] != pat[k] {
            assert(s@.subrange(i as int, i + pat.len())[k as int] != pat@[k as int]);
            return false;
        }
        k = k + 1;
    }
    assert(s@.subrange(i as int, i + pat.len()) =~= pat@);
    true
}

/// `s` with every occurrence of the non-empty `pat` replaced by `rep`, as `str::replace` does.
pub fn replace_text(s: &str, pat: &str, rep: &str) -> (r: String)
    requires
        pat@.len() > 0,
    ensures
        r@ == replace_all(s@, pat@, rep@),
{
    let chars = crate::text::chars_of(s);
    let pchars = crate::text::chars_of(pat);
    let rchars = crate::text::chars_of(rep);
    let mut out = String::new();
    let mut i: usize = 0;
    assert(s@.skip(0) =~= s@);
    assert(out@ + replace_all(s@, pat@, rep@) =~= replace_all(s@, pat@, rep@));
    while i < chars.len()
        invariant
            i <= chars.len(),
            chars@ == s@,
            pchars@ == pat@,
            rchars@ == rep@,
            pat@.len() > 0,
            out@ + replace_all(s@.skip(i as int), pat@, rep@) == replace_all(s@, pat@, rep@),
        decreases chars.len() - i,
    {
        let ghost rest = s@.skip(i as int);
        if starts_at(&chars, i, &pchars) {
            assert(rest.take(pat@.len() as int) =~= s@.subrange(i as int, i + pat@.len()));
            assert(rest.skip(pat@.len() as int) =~= s@.skip(i + pat@.len()));
            let mut k: usize = 0;
            let ghost before = out@;
            while k < rchars.len()
                invariant
                    k <= rchars.len(),
                    out@ == before + rchars@.take(k as int),
                decreases rchars.len() - k,
            {
                assert(rchars@.take(k + 1) =~= rchars@.take(k as int).push(rchars@[k as int]));
                push_char(&mut out, rchars[k]);
                k = k + 1;
            }
            assert(rchars@.take(k as int) =~= rep@);
            assert(out@ + replace_all(s@.skip(i + pat@.len()), pat@, rep@) =~= before + (rep@
                + replace_all(rest.skip(pat@.len() as int), pat@, rep@)));
            i = i + pchars.len();
        } else {
            proof {
                if rest.len() >= pat@.len() {
                    assert(rest.take(pat@.len() as int) =~= s@.subrange(i as int, i + pat@.len()));
                }
            }
            assert(rest.skip(1) =~= s@.skip(i + 1));
            assert(rest[0] == chars@[i as int]);
            let ghost before = out@;
            push_char(&mut out, chars[i]);
            assert(out@ + replace_all(s@.skip(i + 1), pat@, rep@) =~= before + (seq![rest[0]]
                + replace_all(rest.skip(1), pat@, rep@)));
            i = i + 1;
        }
    }
    assert(s@.skip(i as int) =~= Seq::<char>::empty());
    assert(out@ + Seq::<char>::empty() =~= out@);
    out
}

/// The page with its style sheet and script inlined: the placeholders are replaced one
/// after the other, the script's in the page that already holds the styles.
pub open spec fn inlined_page(index: Seq<char>, css: Seq<char>, js: Seq<char>) -> Seq<char> {
    replace_all(replace_all(index, "{{INLINE_STYLES}}"@, css), "{{INLINE_SCRIPT}}"@, js)
}

pub fn inline_assets(index: &str, css: &str, js: &str) -> (r: String)
    ensures
        r@ == inlined_page(index@, css@, js@),
{
    proof {
        reveal_strlit("{{INLINE_STYLES}}");
        reveal_strlit("{{INLINE_SCRIPT}}");
    }
    let styled = replace_text(index, "{{INLINE_STYLES}}", css);
    replace_text(styled.as_str(), "{{INLINE_SCRIPT}}", js)
}

} // verus!

verus! {

// ---- the plate image --------------------------------------------------------------

/// The media type of an image: by its first bytes (PNG, JPEG, WebP signatures), else by
/// the file extension in any letter case; `None` for anything else.
pub open spec fn mime_for(extension: Option<Seq<char>>, bytes: Seq<u8>) -> Option<Seq<char>> {
    if bytes.len() >= 8 && bytes.take(8) == seq![0x89u8, 0x50, 0x4E, 0x47, 0x0D, 0x0A, 0x1A, 0x0A] {
        Some("image/png"@)
    } else if bytes.len() >= 3 && bytes.take(3) == seq![0xFFu8, 0xD8, 0xFF] {
        Some("image/jpeg"@)
    } else if bytes.len() >= 12 && bytes.take(4) == seq![0x52u8, 0x49, 0x46, 0x46]
        && bytes.subrange(8, 12) == seq![0x57u8, 0x45, 0x42, 0x50] {
        Some("image/webp"@)
    } else {
        match extension {
            Some(ext) => if eq_ignore_ascii_case(ext, "png"@) {
                Some("image/png"@)
            } else if eq_ignore_ascii_case(ext, "jpg"@) || eq_ignore_ascii_case(ext, "jpeg"@) {
                Some("image/jpeg"@)
            } else if eq_ignore_ascii_case(ext, "webp"@) {
                Some("image/webp"@)
            } else if eq_ignore_ascii_case(ext, "heic"@) {
                Some("image/heic"@)
            } else {
                None
            },
            None => None,
        }
    }
}

fn bytes_start_with(bytes: &[u8], at: usize, prefix: &[u8]) -> (r: bool)
    ensures
        r == (at + prefix@.len() <= bytes@.len() && bytes@.subrange(at as int, at + prefix@.len())
            == prefix@),
{
    if at > bytes.len() || prefix.len() > bytes.len() - at {
        return false;
    }
    let mut k: usize = 0;
    while k < prefix.len()
        invariant
            k <= prefix@.len(),
            at + prefix@.len() <= bytes@.len(),
            bytes@.len() == bytes.len(),
            prefix@.len() == prefix.len(),
            forall|j: int| 0 <= j < k ==> bytes@[at + j] == prefix@[j],
        decreases prefix.len() - k,
    {
        if bytes[at + k] != prefix[k] {
            assert(bytes@.subrange(at as int, at + prefix@.len())[k as int] != prefix@[k as int]);
            return false;
        }
        k = k + 1;
    }
    assert(bytes@.subrange(at as int, at + prefix@.len()) =~= prefix@);
    true
}

pub fn detect_mime(extension: Option<&str>, bytes: &[u8]) -> (r: Option<&'static str>)
    ensures
        match r {
            Some(m) => mime_for(
                match extension {
                    Some(e) => Some(e@),
                    None => None,
                },
                bytes@,
            ) == Some(m@),
            None => mime_for(
                match extension {
                    Some(e) => Some(e@),
                    None => None,
                },
                bytes@,
            ) is None,
        },
{
    let png: [u8; 8] = [0x89, 0x50, 0x4E, 0x47, 0x0D, 0x0A, 0x1A, 0x0A];
    let jpeg: [u8; 3] = [0xFF, 0xD8, 0xFF];
    let riff: [u8; 4] = [0x52, 0x49, 0x46, 0x46];
    let webp: [u8; 4] = [0x57, 0x45, 0x42, 0x50];
    assert(png@ =~= seq![0x89u8, 0x50, 0x4E, 0x47, 0x0D, 0x0A, 0x1A, 0x0A]);
    assert(jpeg@ =~= seq![0xFFu8, 0xD8, 0xFF]);
    assert(riff@ =~= seq![0x52u8, 0x49, 0x46, 0x46]);
    assert(webp@ =~= seq![0x57u8, 0x45, 0x42, 0x50]);
    if bytes_start_with(bytes, 0, png.as_slice()) {
        assert(bytes@.subrange(0, 8) =~= bytes@.take(8));
        return Some("image/png");
    }
    assert(bytes@.len() >= 8 ==> bytes@.subrange(0, 8) =~= bytes@.take(8));
    if bytes_start_with(bytes, 0, jpeg.as_slice()) {
        assert(bytes@.subrange(0, 3) =~= bytes@.take(3));
        return Some("image/jpeg");
    }
    assert(bytes@.len() >= 3 ==> bytes@.subrange(0, 3) =~= bytes@.take(3));
    if bytes.len() >= 12 && bytes_start_with(bytes, 0, riff.as_slice()) && bytes_start_with(
        bytes,
        8,
        webp.as_slice(),
    ) {
        assert(bytes@.subrange(0, 4) =~= bytes@.take(4));
        return Some("image/webp");
    }
    assert(bytes@.len() >= 12 ==> bytes@.subrange(0, 4) =~= bytes@.take(4));
    match extension {
        Some(ext) => {
            if equals_ignore_ascii_case(ext, "png") {
                Some("image/png")
            } else if equals_ignore_ascii_case(ext, "jpg") || equals_ignore_ascii_case(ext, "jpeg") {
                Some("image/jpeg")
            } else if equals_ignore_ascii_case(ext, "webp") {
                Some("image/webp")
            } else if equals_ignore_ascii_case(ext, "heic") {
                Some("image/heic")
            } else {
                None
            }
        },
        None => None,
    }
}

/// The character for a six-bit value in the standard base64 alphabet.
pub open spec fn base64_char(v: int) -> char {
    if v < 26 {
        (v + 65) as char
    } else if v < 52 {
        (v + 71) as char
    } else if v < 62 {
        (v - 4) as char
    } else if v == 62 {
        '+'
    } else {
        '/'
    }
}

/// Standard base64 with `=` padding: every three bytes become four characters, and a
/// last group of one or two bytes is padded to four.
pub open spec fn base64_encode(b: Seq<u8>) -> Seq<char>
    decreases b.len(),
{
    if b.len() == 0 {
        Seq::empty()
    } else {
        let b0 = b[0] as int;
        let b1 = if b.len() > 1 { b[1] as int } else { 0 };
        let b2 = if b.len() > 2 { b[2] as int } else { 0 };
        if b.len() == 1 {
            seq![base64_char(b0 / 4), base64_char((b0 % 4) * 16), '=', '=']
        } else if b.len() == 2 {
            seq![
                base64_char(b0 / 4),
                base64_char((b0 % 4) * 16 + b1 / 16),
                base64_char((b1 % 16) * 4),
                '=',
            ]
        } else {
            seq![
                base64_char(b0 / 4),
                base64_char((b0 % 4) * 16 + b1 / 16),
                base64_char((b1 % 16) * 4 + b2 / 64),
                base64_char(b2 % 64),
            ] + base64_encode(b.skip(3))
        }
    }
}

/// The standard base64 text of some bytes.
/// Trusted: `Engine::encode` of `base64::engine::general_purpose::STANDARD` (base64): the
/// standard alphabet with `=` padding. It panics when the output length overflows
/// `usize`, which the `requires` rules out.
#[verifier::external_body]
fn base64_standard(bytes: &[u8]) -> (r: String)
    requires
        (bytes@.len() / 3) * 4 + 4 <= usize::MAX,
    ensures
        r@ == base64_encode(bytes@),
{
    base64::Engine::encode(&base64::engine::general_purpose::STANDARD, bytes)
}

/// An image as a `data:` URI, or `None` when its type is not recognised.
pub open spec fn data_uri_text(extension: Option<Seq<char>>, bytes: Seq<u8>) -> Option<Seq<char>> {
    match mime_for(extension, bytes) {
        Some(mime) => Some("data:"@ + mime + ";base64,"@ + base64_encode(bytes)),
        None => None,
    }
}

/// The content decides before the file name: bytes that begin with the JPEG marker
/// FF D8 FF are a JPEG image, whatever the extension says.
pub proof fn lemma_jpeg_signature_wins(extension: Option<Seq<char>>, bytes: Seq<u8>)
    requires
        bytes.len() >= 3,
        bytes[0] == 0xFFu8,
        bytes[1] == 0xD8u8,
        bytes[2] == 0xFFu8,
    ensures
        mime_for(extension, bytes) == Some("image/jpeg"@),
        data_uri_text(extension, bytes) == Some(
            "data:"@ + "image/jpeg"@ + ";base64,"@ + base64_encode(bytes),
        ),
{
    assert(bytes.take(3) =~= seq![0xFFu8, 0xD8, 0xFF]);
    if bytes.len() >= 8 {
        assert(bytes.take(8)[0] != seq![0x89u8, 0x50, 0x4E, 0x47, 0x0D, 0x0A, 0x1A, 0x0A][0]);
    }
}

/// Bytes that begin with the PNG signature 89 50 4E 47 0D 0A 1A 0A are a PNG image,
/// whatever the extension says.
pub proof fn lemma_png_signature_wins(extension: Option<Seq<char>>, bytes: Seq<u8>)
    requires
        bytes.len() >= 8,
        bytes[0] == 0x89u8,
        bytes[1] == 0x50u8,
        bytes[2] == 0x4Eu8,
        bytes[3] == 0x47u8,
        bytes[4] == 0x0Du8,
        bytes[5] == 0x0Au8,
        bytes[6] == 0x1Au8,
        bytes[7] == 0x0Au8,
    ensures
        mime_for(extension, bytes) == Some("image/png"@),
        data_uri_text(extension, bytes) == Some(
            "data:"@ + "image/png"@ + ";base64,"@ + base64_encode(bytes),
        ),
{
    assert(bytes.take(8) =~= seq![0x89u8, 0x50, 0x4E, 0x47, 0x0D, 0x0A, 0x1A, 0x0A]);
}

/// Bytes that hold "RIFF" at offset 0 and "WEBP" at offset 8 are a WebP image, whatever
/// the extension says.
pub proof fn lemma_webp_signature_wins(extension: Option<Seq<char>>, bytes: Seq<u8>)
    requires
        bytes.len() >= 12,
        bytes[0] == 0x52u8,
        bytes[1] == 0x49u8,
        bytes[2] == 0x46u8,
        bytes[3] == 0x46u8,
        bytes[8] == 0x57u8,
        bytes[9] == 0x45u8,
        bytes[10] == 0x42u8,
        bytes[11] == 0x50u8,
    ensures
        mime_for(extension, bytes) == Some("image/webp"@),
        data_uri_text(extension, bytes) == Some(
            "data:"@ + "image/webp"@ + ";base64,"@ + base64_encode(bytes),
        ),
{
    assert(bytes.take(4) =~= seq![0x52u8, 0x49, 0x46, 0x46]);
    assert(bytes.subrange(8, 12) =~= seq![0x57u8, 0x45, 0x42, 0x50]);
    assert(bytes.take(8)[0] != seq![0x89u8, 0x50, 0x4E, 0x47, 0x0D, 0x0A, 0x1A, 0x0A][0]);
    assert(bytes.take(3)[0] != seq![0xFFu8, 0xD8, 0xFF][0]);
}

pub fn image_data_uri(extension: Option<&str>, bytes: &[u8]) -> (r: Option<String>)
    requires
        (bytes@.len() / 3) * 4 + 4 <= usize::MAX,
    ensures
        match r {
            Some(u) => data_uri_text(
                match extension {
                    Some(e) => Some(e@),
                    None => None,
                },
                bytes@,
            ) == Some(u@),
            None => data_uri_text(
                match extension {
                    Some(e) => Some(e@),
                    None => None,
                },
                bytes@,
            ) is None,
        },
{
    match detect_mime(extension, bytes) {
        Some(mime) => {
            let encoded = base64_standard(bytes);
            let mut uri = "data:".to_owned();
            uri.append(mime);
            uri.append(";base64,");
            uri.append(encoded.as_str());
            Some(uri)
        },
        None => None,
    }
}

} // verus!

verus! {

// ---- choosing the plate image -------------------------------------------------------

/// The file names tried first, in this order, when looking for the plate image.
pub open spec fn priority_image_names_text() -> Seq<Seq<char>> {
    seq!["plate.png"@, "plate.webp"@, "plate.jpg"@, "plate.jpeg"@, "plate.heic"@]
}

pub fn priority_image_names() -> (r: Vec<&'static str>)
    ensures
        r@.map_values(|n: &'static str| n@) == priority_image_names_text(),
{
    let r = vec!["plate.png", "plate.webp", "plate.jpg", "plate.jpeg", "plate.heic"];
    assert(r@.map_values(|n: &'static str| n@) =~= priority_image_names_text());
    r
}

/// A file extension that marks an image: png, jpg, jpeg, webp or heic in any letter case.
pub open spec fn is_image_extension_text(ext: Seq<char>) -> bool {
    let l = crate::text::ascii_lower_seq(ext);
    l == "png"@ || l == "jpg"@ || l == "jpeg"@ || l == "webp"@ || l == "heic"@
}

pub fn is_image_extension(ext: &str) -> (r: bool)
    ensures
        r == is_image_extension_text(ext@),
{
    crate::text::lowercase_equals(ext, "png") || crate::text::lowercase_equals(ext, "jpg")
        || crate::text::lowercase_equals(ext, "jpeg") || crate::text::lowercase_equals(ext, "webp")
        || crate::text::lowercase_equals(ext, "heic")
}

/// A directory entry: its file name as bytes, and its extension when it has one that is
/// valid text.
#[derive(Debug, Clone)]
pub struct DirEntryName {
    pub name: Vec<u8>,
    pub extension: Option<String>,
}

pub open spec fn entry_is_image(e: DirEntryName) -> bool {
    match e.extension {
        Some(ext) => is_image_extension_text(ext@),
        None => false,
    }
}

/// The names of the image entries, in directory order.
pub open spec fn image_names(es: Seq<DirEntryName>) -> Seq<Seq<u8>>
    decreases es.len(),
{
    if es.len() == 0 {
        Seq::empty()
    } else if entry_is_image(es.last()) {
        image_names(es.drop_last()).push(es.last().name@)
    } else {
        image_names(es.drop_last())
    }
}

/// Byte-wise lexicographic order, the order of paths that share a directory.
pub open spec fn byte_lex_le(a: Seq<u8>, b: Seq<u8>) -> bool
    decreases a.len(),
{
    if a.len() == 0 {
        true
    } else if b.len() == 0 {
        false
    } else if a[0] != b[0] {
        a[0] < b[0]
    } else {
        byte_lex_le(a.drop_first(), b.drop_first())
    }
}

pub proof fn lemma_byte_lex_reflexive(a: Seq<u8>)
    ensures
        byte_lex_le(a, a),
    decreases a.len(),
{
    if a.len() > 0 {
        lemma_byte_lex_reflexive(a.drop_first());
    }
}

pub proof fn lemma_byte_lex_antisymmetric(a: Seq<u8>, b: Seq<u8>)
    requires
        byte_lex_le(a, b),
        byte_lex_le(b, a),
    ensures
        a == b,
    decreases a.len(),
{
    if a.len() > 0 {
        lemma_byte_lex_antisymmetric(a.drop_first(), b.drop_first());
        assert(a =~= seq![a[0]] + a.drop_first());
        assert(b =~= seq![b[0]] + b.drop_first());
    } else {
        assert(b.len() == 0);
        assert(a =~= b);
    }
}

pub proof fn lemma_byte_lex_transitive(a: Seq<u8>, b: Seq<u8>, c: Seq<u8>)
    requires
        byte_lex_le(a, b),
        byte_lex_le(b, c),
    ensures
        byte_lex_le(a, c),
    decreases a.len(),
{
    if a.len() > 0 && b.len() > 0 && c.len() > 0 && a[0] == b[0] && b[0] == c[0] {
        lemma_byte_lex_transitive(a.drop_first(), b.drop_first(), c.drop_first());
    }
}

pub proof fn lemma_byte_lex_total(a: Seq<u8>, b: Seq<u8>)
    ensures
        byte_lex_le(a, b) || byte_lex_le(b, a),
    decreases a.len(),
{
    if a.len() > 0 && b.len() > 0 && a[0] == b[0] {
        lemma_byte_lex_total(a.drop_first(), b.drop_first());
    }
}

/// Byte-wise lexicographic order is a total order.
pub proof fn lemma_byte_lex_total_ordering()
    ensures
        vstd::relations::total_ordering(|a: Seq<u8>, b: Seq<u8>| byte_lex_le(a, b)),
{
    let leq = |a: Seq<u8>, b: Seq<u8>| byte_lex_le(a, b);
    assert forall|a: Seq<u8>| #[trigger] leq(a, a) by {
        lemma_byte_lex_reflexive(a);
    }
    assert forall|a: Seq<u8>, b: Seq<u8>| #[trigger] leq(a, b) && #[trigger] leq(b, a) implies a == b by {
        lemma_byte_lex_antisymmetric(a, b);
    }
    assert forall|a: Seq<u8>, b: Seq<u8>, c: Seq<u8>| #[trigger] leq(a, b) && #[trigger] leq(b, c) implies leq(a, c) by {
        lemma_byte_lex_transitive(a, b, c);
    }
    assert forall|a: Seq<u8>, b: Seq<u8>| #[trigger] leq(a, b) || #[trigger] leq(b, a) by {
        lemma_byte_lex_total(a, b);
    }
}

fn bytes_le(a: &Vec<u8>, b: &Vec<u8>) -> (r: bool)
    ensures
        r == byte_lex_le(a@, b@),
{
    let mut i: usize = 0;
    assert(a@.skip(0) =~= a@);
    assert(b@.skip(0) =~= b@);
    while i < a.len() && i < b.len()
        invariant
            i <= a.len(),
            i <= b.len(),
            byte_lex_le(a@, b@) == byte_lex_le(a@.skip(i as int), b@.skip(i as int)),
        decreases a.len() - i,
    {
        let ghost sa = a@.skip(i as int);
        let ghost sb = b@.skip(i as int);
        assert(sa[0] == a@[i as int]);
        assert(sb[0] == b@[i as int]);
        if a[i] != b[i] {
            return a[i] < b[i];
        }
        assert(sa.drop_first() =~= a@.skip(i + 1));
        assert(sb.drop_first() =~= b@.skip(i + 1));
        i = i + 1;
    }
    assert(i == a.len() ==> a@.skip(i as int).len() == 0);
    assert(i < a.len() ==> b@.skip(i as int).len() == 0 && a@.skip(i as int).len() > 0);
    i == a.len()
}

pub open spec fn names_view(v: Seq<Vec<u8>>) -> Seq<Seq<u8>> {
    v.map_values(|b: Vec<u8>| b@)
}

/// The names of the image entries, sorted byte-wise: the order in which the remaining
/// images are tried when none of the preferred names exists.
pub fn image_candidates(entries: Vec<DirEntryName>) -> (r: Vec<Vec<u8>>)
    ensures
        names_view(r@) == image_names(entries@).sort_by(|a: Seq<u8>, b: Seq<u8>| byte_lex_le(a, b)),
{
    let ghost leq = |a: Seq<u8>, b: Seq<u8>| byte_lex_le(a, b);
    proof {
        lemma_byte_lex_total_ordering();
    }
    let ghost orig = entries@;
    let mut sorted: Vec<Vec<u8>> = Vec::new();
    proof {
        broadcast use vstd::seq_lib::group_to_multiset_ensures;
        assert(orig.take(0) =~= Seq::<DirEntryName>::empty());
        assert(names_view(sorted@) =~= Seq::<Seq<u8>>::empty());
        assert(names_view(sorted@).to_multiset() =~= image_names(orig.take(0)).to_multiset());
    }
    for entry in it: entries.into_iter()
        invariant
            it.seq() == orig,
            vstd::relations::total_ordering(leq),
            leq == (|a: Seq<u8>, b: Seq<u8>| byte_lex_le(a, b)),
            vstd::relations::sorted_by(names_view(sorted@), leq),
            names_view(sorted@).to_multiset() == image_names(orig.take(it.index() as int)).to_multiset(),
    {
        let ghost k = it.index() as int;
        assert(orig.take(k + 1).drop_last() =~= orig.take(k));
        assert(orig.take(k + 1).last() == entry);
        let is_image = match &entry.extension {
            Some(ext) => is_image_extension(ext.as_str()),
            None => false,
        };
        assert(is_image == entry_is_image(entry));
        if is_image {
            let name = entry.name;
            let ghost s = names_view(sorted@);
            let mut p: usize = 0;
            while p < sorted.len() && bytes_le(&sorted[p], &name)
                invariant
                    p <= sorted.len(),
                    s == names_view(sorted@),
                    forall|j: int| 0 <= j < p ==> byte_lex_le(#[trigger] s[j], name@),
                decreases sorted.len() - p,
            {
                assert(s[p as int] == sorted@[p as int]@);
                p = p + 1;
            }
            proof {
                if p < sorted.len() {
                    assert(s[p as int] == sorted@[p as int]@);
                    lemma_byte_lex_total(s[p as int], name@);
                }
            }
            let ghost nm = name@;
            sorted.insert(p, name);
            assert(names_view(sorted@) =~= s.insert(p as int, nm));
            proof {
                let t = s.insert(p as int, nm);
                assert forall|i: int, j: int| 0 <= i < j < t.len() implies #[trigger] leq(t[i], t[j]) by {
                    if j < p {
                    } else if j == p {
                        assert(byte_lex_le(s[i], nm));
                    } else if i < p {
                        assert(leq(s[i], nm));
                        assert(leq(nm, s[p as int]));
                        assert(leq(s[p as int], s[j - 1]) || p as int == j - 1);
                        lemma_byte_lex_transitive(s[i], nm, s[p as int]);
                        if p as int != j - 1 {
                            lemma_byte_lex_transitive(s[i], s[p as int], s[j - 1]);
                        }
                    } else if i == p {
                        assert(leq(nm, s[p as int]));
                        if p as int != j - 1 {
                            assert(leq(s[p as int], s[j - 1]));
                            lemma_byte_lex_transitive(nm, s[p as int], s[j - 1]);
                        }
                    } else {
                        assert(leq(s[i - 1], s[j - 1]));
                    }
                }
                vstd::seq_lib::to_multiset_insert(s, p as int, nm);
                vstd::seq_lib::to_multiset_build(image_names(orig.take(k)), nm);
            }
        }
    }
    proof {
        assert(orig.take(orig.len() as int) =~= orig);
        let target = image_names(orig);
        target.lemma_sort_by_ensures(leq);
        vstd::seq_lib::lemma_sorted_unique(names_view(sorted@), target.sort_by(leq), leq);
    }
    sorted
}

} // verus!
