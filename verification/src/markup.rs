//! Escaping of text that is placed inside HTML markup.
//!
//! The escaping itself is done by the `horrorshow` template crate; this module
//! states what it yields and carries its error type into the library's own.

use vstd::prelude::*;

verus! {

/// What stands for one character in escaped text: an entity for `&`, `"`, `<`
/// and `>`, the character itself for every other.
pub open spec fn escape_char(c: char) -> Seq<char> {
    if c == '&' {
        seq!['&', 'a', 'm', 'p', ';']
    } else if c == '"' {
        seq!['&', 'q', 'u', 'o', 't', ';']
    } else if c == '<' {
        seq!['&', 'l', 't', ';']
    } else if c == '>' {
        seq!['&', 'g', 't', ';']
    } else {
        seq![c]
    }
}

/// The escaped form of a text: each character replaced by what stands for it.
pub open spec fn escaped(text: Seq<char>) -> Seq<char>
    decreases text.len(),
{
    if text.len() == 0 {
        Seq::empty()
    } else {
        escaped(text.drop_last()) + escape_char(text.last())
    }
}

/// Escaped text holds no `<`, no `>` and no `"`: it cannot open or close a
/// tag, nor end an attribute value.
pub proof fn lemma_escaped_is_inert(text: Seq<char>)
    ensures
        forall|i: int|
            0 <= i < escaped(text).len() ==> {
                let c = #[trigger] escaped(text)[i];
                c != '<' && c != '>' && c != '"'
            },
    decreases text.len(),
{
    if text.len() > 0 {
        lemma_escaped_is_inert(text.drop_last());
        let head = escaped(text.drop_last());
        let tail = escape_char(text.last());
        assert forall|i: int| 0 <= i < escaped(text).len() implies {
            let c = #[trigger] escaped(text)[i];
            c != '<' && c != '>' && c != '"'
        } by {
            if i < head.len() {
                assert(escaped(text)[i] == head[i]);
            } else {
                assert(escaped(text)[i] == tail[i - head.len()]);
            }
        }
    }
}

/// Text without any of the four special characters is its own escaped form.
pub proof fn lemma_escaped_plain(text: Seq<char>)
    requires
        forall|i: int|
            0 <= i < text.len() ==> {
                let c = #[trigger] text[i];
                c != '&' && c != '"' && c != '<' && c != '>'
            },
    ensures
        escaped(text) == text,
    decreases text.len(),
{
    if text.len() > 0 {
        lemma_escaped_plain(text.drop_last());
        assert(text.drop_last() + seq![text.last()] =~= text);
    }
}

#[verifier::external_type_specification]
#[verifier::external_body]
pub struct ExTemplateError(horrorshow::Error);

/// Why a page could not be rendered.
#[derive(Debug)]
pub struct RenderError {
    pub message: String,
}

/// `horrorshow::Template::into_string` on a string slice: the crate renders
/// the slice into a fresh `String`, escaping `&`, `"`, `<` and `>` and copying
/// every other byte. Writing into a `String` records no error, so the result
/// is always `Ok`.
#[verifier::external_body]
fn escape_text(text: &str) -> (r: Result<String, horrorshow::Error>)
    ensures
        r is Ok,
        r matches Ok(s) ==> s@ == escaped(text@),
{
    horrorshow::Template::into_string(text)
}

/// The `Display` text of a `horrorshow::Error`. Nothing is claimed of it.
#[verifier::external_body]
fn error_text(error: &horrorshow::Error) -> (text: String) {
    format!("{}", error)
}

/// Escapes `text` for use as element content or inside a double-quoted
/// attribute value.
pub fn escape(text: &str) -> (r: Result<String, RenderError>)
    ensures
        r is Ok,
        r matches Ok(s) ==> s@ == escaped(text@),
{
    match escape_text(text) {
        Ok(s) => Ok(s),
        Err(e) => Err(RenderError { message: error_text(&e) }),
    }
}

} // verus!
