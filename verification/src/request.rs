//! Parsing of the request line out of a raw buffer.
//!
//! Only the first line of the buffer is meaningfully parsed: it is split on
//! runs of whitespace, the first token is the method and the second the URL.
//! A missing token falls back to `GET` and `/` respectively. No headers,
//! body, URL decoding or query strings are looked at.

use vstd::prelude::*;

verus! {

/// Whether `c` has the Unicode `White_Space` property, the separator set
/// that request-line tokens are split on.
pub open spec fn is_space(c: char) -> bool {
    ||| c == '\u{0009}'
    ||| c == '\u{000A}'
    ||| c == '\u{000B}'
    ||| c == '\u{000C}'
    ||| c == '\u{000D}'
    ||| c == '\u{0020}'
    ||| c == '\u{0085}'
    ||| c == '\u{00A0}'
    ||| c == '\u{1680}'
    ||| c == '\u{2000}'
    ||| c == '\u{2001}'
    ||| c == '\u{2002}'
    ||| c == '\u{2003}'
    ||| c == '\u{2004}'
    ||| c == '\u{2005}'
    ||| c == '\u{2006}'
    ||| c == '\u{2007}'
    ||| c == '\u{2008}'
    ||| c == '\u{2009}'
    ||| c == '\u{200A}'
    ||| c == '\u{2028}'
    ||| c == '\u{2029}'
    ||| c == '\u{202F}'
    ||| c == '\u{205F}'
    ||| c == '\u{3000}'
}

/// The index of the first line feed at or after `i`, or `s.len()` if there
/// is none: the request line is `s[0 .. line_end(s, 0)]`.
pub open spec fn line_end(s: Seq<char>, i: int) -> int
    recommends
        0 <= i <= s.len(),
    decreases s.len() - i,
{
    if i < 0 || i >= s.len() {
        s.len() as int
    } else if s[i] == '\n' {
        i
    } else {
        line_end(s, i + 1)
    }
}

/// The index of the first non-whitespace character in `s[i .. end]`, or
/// `end` if the range is all whitespace.
pub open spec fn skip_ws(s: Seq<char>, i: int, end: int) -> int
    recommends
        0 <= i <= end <= s.len(),
    decreases end - i,
{
    if i < 0 || i >= end {
        end
    } else if is_space(s[i]) {
        skip_ws(s, i + 1, end)
    } else {
        i
    }
}

/// The index of the first whitespace character in `s[i .. end]`, or `end`
/// if there is none: a token starting at `i` runs to `token_end(s, i, end)`.
pub open spec fn token_end(s: Seq<char>, i: int, end: int) -> int
    recommends
        0 <= i <= end <= s.len(),
    decreases end - i,
{
    if i < 0 || i >= end {
        end
    } else if is_space(s[i]) {
        i
    } else {
        token_end(s, i + 1, end)
    }
}

/// The method of a raw buffer: the first whitespace-separated token of the
/// first line, or `GET` if the line holds no token.
pub open spec fn spec_method(raw: Seq<char>) -> Seq<char> {
    let end = line_end(raw, 0);
    let s0 = skip_ws(raw, 0, end);
    let e0 = token_end(raw, s0, end);
    if s0 == e0 {
        "GET"@
    } else {
        raw.subrange(s0, e0)
    }
}

/// The URL of a raw buffer: the second whitespace-separated token of the
/// first line, or `/` if the line holds fewer than two tokens.
pub open spec fn spec_url(raw: Seq<char>) -> Seq<char> {
    let end = line_end(raw, 0);
    let s0 = skip_ws(raw, 0, end);
    let e0 = token_end(raw, s0, end);
    let s1 = skip_ws(raw, e0, end);
    let e1 = token_end(raw, s1, end);
    if s1 == e1 {
        "/"@
    } else {
        raw.subrange(s1, e1)
    }
}

/// One request as read from a connection: an immutable raw text buffer,
/// with the method and URL derived from its first line on demand.
pub struct Request {
    raw: String,
}

impl View for Request {
    type V = Seq<char>;

    closed spec fn view(&self) -> Seq<char> {
        self.raw@
    }
}

impl Request {
    /// Wraps a raw buffer; nothing is parsed until an accessor is called.
    pub fn new(raw: String) -> (r: Self)
        ensures
            r@ == raw@,
    {
        Self { raw }
    }

    /// The second token of the first line, or `/` if it is absent.
    pub fn url(&self) -> (r: &str)
        ensures
            r@ == spec_url(self@),
    {
        let s = self.raw.as_str();
        let end = find_line_end(s);
        let (s0, e0) = token_span(s, 0, end);
        let (s1, e1) = token_span(s, e0, end);
        if s1 == e1 {
            "/"
        } else {
            s.substring_char(s1, e1)
        }
    }

    /// The first token of the first line, or `GET` if it is absent.
    pub fn method(&self) -> (r: &str)
        ensures
            r@ == spec_method(self@),
    {
        let s = self.raw.as_str();
        let end = find_line_end(s);
        let (s0, e0) = token_span(s, 0, end);
        if s0 == e0 {
            "GET"
        } else {
            s.substring_char(s0, e0)
        }
    }
}

/// Whether `c` is request-line whitespace; mirrors `is_space` exactly.
fn is_space_char(c: char) -> (r: bool)
    ensures
        r == is_space(c),
{
    c == '\u{0009}' || c == '\u{000A}' || c == '\u{000B}' || c == '\u{000C}' || c == '\u{000D}'
        || c == '\u{0020}' || c == '\u{0085}' || c == '\u{00A0}' || c == '\u{1680}'
        || c == '\u{2000}' || c == '\u{2001}' || c == '\u{2002}' || c == '\u{2003}'
        || c == '\u{2004}' || c == '\u{2005}' || c == '\u{2006}' || c == '\u{2007}'
        || c == '\u{2008}' || c == '\u{2009}' || c == '\u{200A}' || c == '\u{2028}'
        || c == '\u{2029}' || c == '\u{202F}' || c == '\u{205F}' || c == '\u{3000}'
}

/// The character index one past the first line of `s`.
fn find_line_end(s: &str) -> (r: usize)
    ensures
        r as int == line_end(s@, 0),
        r <= s@.len(),
{
    let n = s.unicode_len();
    let mut i: usize = 0;
    while i < n && s.get_char(i) != '\n'
        invariant
            i <= n,
            n == s@.len(),
            line_end(s@, 0) == line_end(s@, i as int),
        decreases n - i,
    {
        i = i + 1;
    }
    i
}

/// The bounds of the first whitespace-separated token of `s[from .. end]`:
/// its start after leading whitespace, and its end. The two are equal when
/// the range holds no token.
fn token_span(s: &str, from: usize, end: usize) -> (r: (usize, usize))
    requires
        from <= end,
        end <= s@.len(),
    ensures
        r.0 as int == skip_ws(s@, from as int, end as int),
        r.1 as int == token_end(s@, r.0 as int, end as int),
        from <= r.0 <= r.1 <= end,
{
    let mut i: usize = from;
    while i < end && is_space_char(s.get_char(i))
        invariant
            from <= i <= end,
            end <= s@.len(),
            skip_ws(s@, from as int, end as int) == skip_ws(s@, i as int, end as int),
        decreases end - i,
    {
        i = i + 1;
    }
    let start = i;
    while i < end && !is_space_char(s.get_char(i))
        invariant
            start <= i <= end,
            end <= s@.len(),
            token_end(s@, start as int, end as int) == token_end(s@, i as int, end as int),
        decreases end - i,
    {
        i = i + 1;
    }
    (start, i)
}

} // verus!
