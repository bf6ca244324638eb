//! Uniform resource identifiers, such as the address of a talk's slides.

use crate::post::exception::{outcome, Exception, ExceptionView};
use crate::text::{decimal_seq, is_white_space, push_decimal};
use vstd::prelude::*;

verus! {

/// Whether `c` may stand in a URI as it is: ASCII letters and digits, the
/// marks `-_.!~*'()`, the delimiters `;/?:@&=+$,[]#%`, and characters beyond
/// ASCII that are neither controls nor whitespace.
pub open spec fn is_uri_char(c: char) -> bool {
    let n = c as u32;
    ||| ('a' <= c && c <= 'z')
    ||| ('A' <= c && c <= 'Z')
    ||| ('0' <= c && c <= '9')
    ||| n == 0x2d || n == 0x5f || n == 0x2e || n == 0x21 || n == 0x7e || n == 0x2a || n == 0x27
        || n == 0x28 || n == 0x29
    ||| n == 0x3b || n == 0x2f || n == 0x3f || n == 0x3a || n == 0x40 || n == 0x26 || n == 0x3d
        || n == 0x2b || n == 0x24 || n == 0x2c || n == 0x5b || n == 0x5d || n == 0x23 || n == 0x25
    ||| (n >= 0xa0 && !is_white_space(c))
}

/// The index of the first character of `s` that may not stand in a URI, or -1.
pub open spec fn first_illegal_index(s: Seq<char>) -> int
    decreases s.len(),
{
    if s.len() == 0 {
        -1
    } else if !is_uri_char(s[0]) {
        0
    } else {
        let r = first_illegal_index(s.drop_first());
        if r < 0 {
            -1
        } else {
            r + 1
        }
    }
}

/// A URI keeps its text; a text with a character that may not stand in a
/// URI is refused with a `URISyntaxException` that names its index.
pub open spec fn uri_outcome(text: Seq<char>) -> Result<Seq<char>, ExceptionView> {
    let i = first_illegal_index(text);
    if i < 0 {
        Ok(text)
    } else {
        Err(ExceptionView::URISyntaxException("Illegal character at index "@ + decimal_seq(i as nat) + ": "@ + text))
    }
}

proof fn lemma_first_illegal_index(s: Seq<char>)
    ensures
        -1 <= first_illegal_index(s) < s.len(),
        first_illegal_index(s) >= 0 ==> !is_uri_char(s[first_illegal_index(s)]),
        forall|k: int| 0 <= k < s.len() && (first_illegal_index(s) < 0 || k < first_illegal_index(s)) ==> is_uri_char(s[k]),
    decreases s.len(),
{
    if s.len() > 0 && is_uri_char(s[0]) {
        lemma_first_illegal_index(s.drop_first());
        assert forall|k: int| 0 <= k < s.len() && (first_illegal_index(s) < 0 || k < first_illegal_index(s)) implies is_uri_char(s[k]) by {
            if k > 0 {
                assert(s[k] == s.drop_first()[k - 1]);
            }
        }
    }
}

/// An unreserved character of RFC 3986 (an ASCII letter or digit, or one of
/// `-`, `.`, `_`, `~`) or one of the delimiters `:`, `/`, `?`, `#`, `[`, `]`, `@`.
pub open spec fn is_plain_uri_char(c: char) -> bool {
    ||| ('a' <= c && c <= 'z')
    ||| ('A' <= c && c <= 'Z')
    ||| ('0' <= c && c <= '9')
    ||| c == '-' || c == '.' || c == '_' || c == '~'
    ||| c == ':' || c == '/' || c == '?' || c == '#' || c == '[' || c == ']' || c == '@'
}

/// A text made of unreserved characters and the delimiters `:/?#[]@` is
/// accepted as a URI, unchanged; and whatever is accepted is kept as written.
pub proof fn law_plain_uris_are_accepted(text: Seq<char>)
    ensures
        (forall|i: int| 0 <= i < text.len() ==> is_plain_uri_char(#[trigger] text[i])) ==> uri_outcome(text) == Ok::<Seq<char>, ExceptionView>(text),
        uri_outcome(text) matches Ok(u) ==> u == text,
{
    lemma_first_illegal_index(text);
    if forall|i: int| 0 <= i < text.len() ==> is_plain_uri_char(#[trigger] text[i]) {
        if first_illegal_index(text) >= 0 {
            let j = first_illegal_index(text);
            assert(is_plain_uri_char(text[j]));
        }
    }
}

/// Whether `c` may stand in a URI as it is.
fn uri_char(c: char) -> (r: bool)
    ensures
        r == is_uri_char(c),
{
    let n = c as u32;
    ('a' <= c && c <= 'z') || ('A' <= c && c <= 'Z') || ('0' <= c && c <= '9') || n == 0x2d || n == 0x5f
        || n == 0x2e || n == 0x21 || n == 0x7e || n == 0x2a || n == 0x27 || n == 0x28 || n == 0x29
        || n == 0x3b || n == 0x2f || n == 0x3f || n == 0x3a || n == 0x40 || n == 0x26 || n == 0x3d
        || n == 0x2b || n == 0x24 || n == 0x2c || n == 0x5b || n == 0x5d || n == 0x23 || n == 0x25
        || (n >= 0xa0 && !crate::text::is_whitespace_char(c))
}

/// A uniform resource identifier.
#[derive(Debug, PartialEq, Eq, Hash)]
pub struct Uri {
    pub text: String,
}

impl View for Uri {
    type V = Seq<char>;

    open spec fn view(&self) -> Seq<char> {
        self.text@
    }
}

impl Uri {
    /// The URI written as `text`, or a `URISyntaxException` where a character
    /// may not stand in a URI.
    pub fn new(text: String) -> (r: Result<Uri, Exception>)
        ensures
            outcome(r) == uri_outcome(text@),
    {
        proof {
            lemma_first_illegal_index(text@);
        }
        let len = text.as_str().unicode_len();
        let mut i: usize = 0;
        while i < len
            invariant
                i <= len,
                len == text@.len(),
                forall|k: int| 0 <= k < i ==> is_uri_char(#[trigger] text@[k]),
                -1 <= first_illegal_index(text@) < text@.len(),
                first_illegal_index(text@) >= 0 ==> !is_uri_char(text@[first_illegal_index(text@)]),
                forall|k: int| 0 <= k < text@.len() && (first_illegal_index(text@) < 0 || k < first_illegal_index(text@)) ==> is_uri_char(text@[k]),
            decreases len - i,
        {
            if !uri_char(text.as_str().get_char(i)) {
                assert(first_illegal_index(text@) == i);
                let mut message = String::from_str("Illegal character at index ");
                push_decimal(&mut message, i as u64);
                message.append(": ");
                message.append(text.as_str());
                return Err(Exception::URISyntaxException(message));
            }
            i = i + 1;
        }
        assert(first_illegal_index(text@) < 0);
        Ok(Uri { text })
    }
}

} // verus!
