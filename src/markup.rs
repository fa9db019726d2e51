//! HTML text produced by the page pipeline, stated over character sequences.
use vstd::prelude::*;

verus! {

/// What one character of text becomes once escaped for HTML.
pub open spec fn escape_char(c: char) -> Seq<char> {
    if c == '&' {
        seq!['&', 'a', 'm', 'p', ';']
    } else if c == '<' {
        seq!['&', 'l', 't', ';']
    } else if c == '>' {
        seq!['&', 'g', 't', ';']
    } else if c == '"' {
        seq!['&', 'q', 'u', 'o', 't', ';']
    } else {
        seq![c]
    }
}

/// Text escaped for HTML, character by character.
pub open spec fn html_escape(s: Seq<char>) -> Seq<char>
    decreases s.len(),
{
    if s.len() == 0 {
        Seq::empty()
    } else {
        html_escape(s.drop_last()) + escape_char(s.last())
    }
}

/// A character that escaping leaves as it is.
pub open spec fn is_plain_char(c: char) -> bool {
    c != '&' && c != '<' && c != '>' && c != '"'
}

/// Text with no character that escaping would change.
pub open spec fn is_plain_text(s: Seq<char>) -> bool {
    forall|i: int| 0 <= i < s.len() ==> is_plain_char(#[trigger] s[i])
}

/// `needle` stands in `hay` starting at index `i`.
pub open spec fn occurs_at(hay: Seq<char>, needle: Seq<char>, i: int) -> bool {
    0 <= i && i + needle.len() <= hay.len() && hay.subrange(i, i + needle.len()) == needle
}

/// `needle` stands somewhere in `hay`.
pub open spec fn contains(hay: Seq<char>, needle: Seq<char>) -> bool {
    exists|i: int| occurs_at(hay, needle, i)
}

/// The document type declaration that opens every page.
pub open spec fn doctype_text() -> Seq<char> {
    "<!DOCTYPE html>"@
}

/// Escaping leaves plain text unchanged.
pub proof fn lemma_escape_plain(s: Seq<char>)
    requires
        is_plain_text(s),
    ensures
        html_escape(s) == s,
    decreases s.len(),
{
    if s.len() > 0 {
        let p = s.drop_last();
        assert(is_plain_char(s[s.len() - 1]));
        assert forall|i: int| 0 <= i < p.len() implies is_plain_char(#[trigger] p[i]) by {
            assert(p[i] == s[i]);
        }
        lemma_escape_plain(p);
        assert(s == p + seq![s.last()]);
    }
}

/// Relies on maud's `Render` impl for `str` (maud's `escape_to_string`):
/// `&`, `<`, `>` and `"` become entities, every other character is kept.
#[verifier::external_body]
pub(crate) fn escape_text(s: &str) -> (r: String)
    ensures
        r@ == html_escape(s@),
{
    maud::Render::render(s).into_string()
}

/// Relies on `maud::DOCTYPE`, the literal `<!DOCTYPE html>`.
#[verifier::external_body]
pub(crate) fn doctype() -> (r: String)
    ensures
        r@ == doctype_text(),
{
    String::from(maud::DOCTYPE.0)
}

} // verus!
