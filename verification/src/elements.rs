//! What the element and page tools report: found elements with a short
//! preview of their text, element searches that fail, and screenshots.

use vstd::prelude::*;
use vstd::utf8::{encode_utf8, is_char_boundary};
use crate::text;
use crate::config::opt_view;

verus! {

/// The UTF-8 encoding of a concatenation is the concatenation of the
/// encodings.
proof fn lemma_encode_concat(a: Seq<char>, b: Seq<char>)
    ensures
        encode_utf8(a + b) == encode_utf8(a) + encode_utf8(b),
    decreases a.len(),
{
    if a.len() == 0 {
        assert(a + b == b);
    } else {
        assert((a + b).drop_first() == a.drop_first() + b);
        lemma_encode_concat(a.drop_first(), b);
        assert(encode_utf8(a + b) == vstd::utf8::encode_scalar((a + b)[0] as u32) + encode_utf8((a + b).drop_first()));
    }
}

/// `...` is three bytes 46.
proof fn lemma_encode_dots()
    ensures
        encode_utf8("..."@) == seq![46u8, 46u8, 46u8],
{
    reveal_strlit("...");
    let s = "..."@;
    assert(s == seq!['.', '.', '.']);
    assert(('.' as u32) == 46u32);
    assert(((46u32 & 0x7F) as u8) == 46u8) by (bit_vector);
    assert(vstd::utf8::encode_scalar(46u32) == seq![46u8]);
    assert(s.drop_first().drop_first().drop_first() =~= Seq::<char>::empty());
    assert(encode_utf8(s.drop_first().drop_first().drop_first()) == Seq::<u8>::empty());
    assert(encode_utf8(s.drop_first().drop_first()) == seq![46u8] + Seq::<u8>::empty());
    assert(encode_utf8(s.drop_first()) == seq![46u8] + encode_utf8(s.drop_first().drop_first()));
    assert(encode_utf8(s) == seq![46u8] + encode_utf8(s.drop_first()));
    assert(encode_utf8(s) =~= seq![46u8, 46u8, 46u8]);
}

/// The bytes of an element's text as shown: texts of more than a hundred
/// bytes are cut to their first 97 bytes and `...`.
pub open spec fn preview_bytes(b: Seq<u8>) -> Seq<u8> {
    if b.len() > 100 {
        b.subrange(0, 97) + seq![46u8, 46u8, 46u8]
    } else {
        b
    }
}

/// Shortens an element's text for display.  The cut is made at byte 97,
/// which must fall between two characters.  (The byte length of a string
/// always fits in `usize`.)
pub fn text_preview(t: &str) -> (r: String)
    requires
        encode_utf8(t@).len() <= usize::MAX,
        encode_utf8(t@).len() <= 100 || is_char_boundary(encode_utf8(t@), 97),
    ensures
        encode_utf8(r@) == preview_bytes(encode_utf8(t@)),
{
    if t.len() > 100 {
        let (head, _tail) = t.split_at(97);
        let r = text::concat2(head, "...");
        proof {
            lemma_encode_concat(head@, "..."@);
            lemma_encode_dots();
        }
        r
    } else {
        text::owned(t)
    }
}

/// ` within parent '<p>'` where a parent selector is given.
pub open spec fn scope_text(parent: Option<Seq<char>>) -> Seq<char> {
    match parent {
        Some(p) => " within parent '"@ + p + "'"@,
        None => Seq::empty(),
    }
}

fn scope_message(parent: &Option<String>) -> (r: String)
    ensures
        r@ == scope_text(opt_view(*parent)),
{
    match parent {
        Some(p) => text::concat3(" within parent '", p.as_str(), "'"),
        None => String::new(),
    }
}

/// The report of a found element.
pub open spec fn found_element_text(selector: Seq<char>, parent: Option<Seq<char>>, session: Seq<char>, tag: Seq<char>, preview: Seq<char>) -> Seq<char> {
    "Found element '"@ + selector + "'"@ + scope_text(parent) + " (session: "@ + session + "): <"@ + tag
        + "> - Text: \""@ + preview + "\""@
}

/// Words the report of a found element.
pub fn found_element_message(selector: &str, parent: &Option<String>, session: &str, tag: &str, preview: &str) -> (r: String)
    ensures
        r@ == found_element_text(selector@, opt_view(*parent), session@, tag@, preview@),
{
    let scope = scope_message(parent);
    let a = text::concat3("Found element '", selector, "'");
    let b = text::concat3(a.as_str(), scope.as_str(), " (session: ");
    let c = text::concat3(b.as_str(), session, "): <");
    let d = text::concat3(c.as_str(), tag, "> - Text: \"");
    text::concat3(d.as_str(), preview, "\"")
}

/// The heading of a report of found elements.
pub open spec fn found_elements_heading(count: nat, selector: Seq<char>, parent: Option<Seq<char>>, session: Seq<char>) -> Seq<char> {
    "Found "@ + text::decimal(count) + " element(s) matching '"@ + selector + "'"@ + scope_text(parent)
        + " (session: "@ + session + "):\n\n"@
}

/// Words the heading of a report of found elements.
pub fn found_elements_header(count: usize, selector: &str, parent: &Option<String>, session: &str) -> (r: String)
    ensures
        r@ == found_elements_heading(count as nat, selector@, opt_view(*parent), session@),
{
    let n = text::decimal_string(count as u64);
    let scope = scope_message(parent);
    let a = text::concat3("Found ", n.as_str(), " element(s) matching '");
    let b = text::concat3(a.as_str(), selector, "'");
    let c = text::concat3(b.as_str(), scope.as_str(), " (session: ");
    text::concat3(c.as_str(), session, "):\n\n")
}

/// One line of a report of found elements: its position from one, its
/// tag and its text preview.
pub fn found_element_line(index: usize, tag: &str, preview: &str) -> (r: String)
    requires
        index < u64::MAX,
    ensures
        r@ == text::decimal((index + 1) as nat) + ". <"@ + tag@ + "> - Text: \""@ + preview@ + "\"\n"@,
{
    let n = text::decimal_string(index as u64 + 1);
    let a = text::concat3(n.as_str(), ". <", tag);
    let b = text::concat3(a.as_str(), "> - Text: \"", preview);
    text::concat2(b.as_str(), "\"\n")
}

/// How an element search without waiting failed.
#[derive(Debug, Clone)]
pub enum SearchFailure {
    /// The parent element was not found.
    Parent { parent: String, error: String },
    /// The element (or elements) were not found within the parent.
    Child { parent: String, error: String },
    /// The element (or elements) were not found on the page.
    Page { error: String },
}

/// The report of a failed search for one element (`many` false) or for
/// all matching elements (`many` true).
pub open spec fn search_failure_text(selector: Seq<char>, many: bool, f: SearchFailure) -> Seq<char> {
    match f {
        SearchFailure::Parent { parent, error } => "Parent element '"@ + parent@ + "' not found: "@ + error@,
        SearchFailure::Child { parent, error } => if many {
            "Child elements '"@ + selector + "' not found within parent '"@ + parent@ + "': "@ + error@
        } else {
            "Child element '"@ + selector + "' not found within parent '"@ + parent@ + "': "@ + error@
        },
        SearchFailure::Page { error } => if many {
            "Elements '"@ + selector + "' not found: "@ + error@
        } else {
            "Element '"@ + selector + "' not found: "@ + error@
        },
    }
}

/// Words the report of a failed search.
pub fn search_failure_message(selector: &str, many: bool, f: &SearchFailure) -> (r: String)
    ensures
        r@ == search_failure_text(selector@, many, *f),
{
    match f {
        SearchFailure::Parent { parent, error } => {
            let a = text::concat3("Parent element '", parent.as_str(), "' not found: ");
            text::concat2(a.as_str(), error.as_str())
        },
        SearchFailure::Child { parent, error } => {
            let a = if many {
                text::concat3("Child elements '", selector, "' not found within parent '")
            } else {
                text::concat3("Child element '", selector, "' not found within parent '")
            };
            let b = text::concat3(a.as_str(), parent.as_str(), "': ");
            text::concat2(b.as_str(), error.as_str())
        },
        SearchFailure::Page { error } => {
            let a = if many {
                text::concat3("Elements '", selector, "' not found: ")
            } else {
                text::concat3("Element '", selector, "' not found: ")
            };
            text::concat2(a.as_str(), error.as_str())
        },
    }
}

/// The report of a tool that could not get a browser session.
pub fn client_failure_message(error: &str) -> (r: String)
    ensures
        r@ == "Failed to create webdriver client: "@ + error@,
{
    text::concat2("Failed to create webdriver client: ", error)
}

/// The first bytes of every PNG file.
pub open spec fn png_signature() -> Seq<u8> {
    seq![0x89u8, 0x50u8, 0x4Eu8, 0x47u8]
}

/// Checks that screenshot data is a PNG image: not empty, and starting
/// with the PNG signature.
pub fn check_png(data: &Vec<u8>) -> (r: Result<(), String>)
    ensures
        data@.len() == 0 ==> (r matches Err(m) && m@ == "Screenshot data is empty"@),
        data@.len() > 0 && !(data@.len() >= 4 && data@.subrange(0, 4) == png_signature())
            ==> (r matches Err(m) && m@ == "Screenshot data is not valid PNG format"@),
        data@.len() >= 4 && data@.subrange(0, 4) == png_signature() ==> r is Ok,
{
    if data.len() == 0 {
        return Err(text::owned("Screenshot data is empty"));
    }
    if data.len() < 4 || !(data[0] == 0x89 && data[1] == 0x50 && data[2] == 0x4E && data[3] == 0x47) {
        proof {
            if data@.len() >= 4 && data@.subrange(0, 4) == png_signature() {
                assert(data@[0] == data@.subrange(0, 4)[0]);
                assert(data@[1] == data@.subrange(0, 4)[1]);
                assert(data@[2] == data@.subrange(0, 4)[2]);
                assert(data@[3] == data@.subrange(0, 4)[3]);
            }
        }
        return Err(text::owned("Screenshot data is not valid PNG format"));
    }
    assert(data@.subrange(0, 4) =~= png_signature());
    Ok(())
}

/// The character of a base64 digit (0 to 63) in the standard alphabet:
/// `A`–`Z`, `a`–`z`, `0`–`9`, `+`, `/`.
pub open spec fn base64_digit(i: int) -> char {
    if i < 26 {
        (65 + i) as char
    } else if i < 52 {
        (97 + i - 26) as char
    } else if i < 62 {
        (48 + i - 52) as char
    } else if i == 62 {
        '+'
    } else {
        '/'
    }
}

/// The standard base64 text (RFC 4648, with `=` padding) of some bytes:
/// each group of three bytes becomes four digits of six bits each; a last
/// group of one or two bytes becomes two or three digits and padding.
pub open spec fn base64_standard(b: Seq<u8>) -> Seq<char>
    decreases b.len(),
{
    let x = if b.len() > 0 { b[0] as int } else { 0 };
    let y = if b.len() > 1 { b[1] as int } else { 0 };
    let z = if b.len() > 2 { b[2] as int } else { 0 };
    if b.len() == 0 {
        Seq::empty()
    } else if b.len() == 1 {
        seq![base64_digit(x / 4), base64_digit((x % 4) * 16), '=', '=']
    } else if b.len() == 2 {
        seq![base64_digit(x / 4), base64_digit((x % 4) * 16 + y / 16), base64_digit((y % 16) * 4), '=']
    } else {
        seq![base64_digit(x / 4), base64_digit((x % 4) * 16 + y / 16), base64_digit((y % 16) * 4 + z / 64),
            base64_digit(z % 64)] + base64_standard(b.subrange(3, b.len() as int))
    }
}

/// Calls `base64::engine::general_purpose::STANDARD.encode`, which writes
/// the standard base64 text with padding (`base64_standard`), and panics
/// only when the encoded length overflows `usize`.
#[verifier::external_body]
pub(crate) fn encode_base64(data: &Vec<u8>) -> (r: String)
    requires
        data@.len() <= usize::MAX / 2,
    ensures
        r@ == base64_standard(data@),
{
    base64::Engine::encode(&base64::engine::general_purpose::STANDARD, data)
}

/// What a screenshot tool answers: a text and the image in base64.
#[derive(Debug, Clone)]
pub struct ScreenshotContent {
    pub text: String,
    pub image_base64: String,
}

/// Answers a screenshot tool: the image checked, saved or not, and sent
/// back in base64.  `save_error` is what saving to the path reported, if
/// it failed.
pub fn screenshot_content(data: &Vec<u8>, save_path: &Option<String>, save_error: &Option<String>) -> (r: Result<ScreenshotContent, String>)
    requires
        data@.len() <= usize::MAX / 2,
    ensures
        data@.len() == 0 ==> (r matches Err(m) && m@ == "Screenshot data is empty"@),
        data@.len() > 0 && !(data@.len() >= 4 && data@.subrange(0, 4) == png_signature())
            ==> (r matches Err(m) && m@ == "Screenshot data is not valid PNG format"@),
        data@.len() >= 4 && data@.subrange(0, 4) == png_signature() ==> match (save_path, save_error) {
            (Some(p), Some(e)) => r matches Err(m) && m@ == "Failed to save screenshot to "@ + p@ + ": "@ + e@,
            (Some(p), None) => r matches Ok(c) && c.image_base64@ == base64_standard(data@)
                && c.text@ == "Screenshot saved to: "@ + p@ + " ("@ + text::decimal(data@.len()) + " bytes)"@,
            (None, _) => r matches Ok(c) && c.image_base64@ == base64_standard(data@)
                && c.text@ == "Screenshot taken ("@ + text::decimal(data@.len()) + " bytes)"@,
        },
{
    match check_png(data) {
        Err(m) => { return Err(m); },
        Ok(()) => {},
    }
    let n = text::decimal_string(data.len() as u64);
    match save_path {
        Some(p) => {
            match save_error {
                Some(e) => {
                    let a = text::concat3("Failed to save screenshot to ", p.as_str(), ": ");
                    Err(text::concat2(a.as_str(), e.as_str()))
                },
                None => {
                    let a = text::concat3("Screenshot saved to: ", p.as_str(), " (");
                    let t = text::concat3(a.as_str(), n.as_str(), " bytes)");
                    Ok(ScreenshotContent { text: t, image_base64: encode_base64(data) })
                },
            }
        },
        None => {
            let t = text::concat3("Screenshot taken (", n.as_str(), " bytes)");
            Ok(ScreenshotContent { text: t, image_base64: encode_base64(data) })
        },
    }
}

/// A screenshot as a `data:` URL.
pub fn png_data_url(data: &Vec<u8>) -> (r: String)
    requires
        data@.len() <= usize::MAX / 2,
    ensures
        r@ == "data:image/png;base64,"@ + base64_standard(data@),
{
    let b = encode_base64(data);
    text::concat2("data:image/png;base64,", b.as_str())
}

/// A text preview is at most a hundred bytes long, and a text of at most
/// a hundred bytes is shown whole.
pub proof fn lemma_preview_bounded(b: Seq<u8>)
    ensures
        preview_bytes(b).len() <= 100,
        b.len() <= 100 ==> preview_bytes(b) == b,
{
}

} // verus!
