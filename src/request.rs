//! The request envelope: a request line, a header block, and a body.

use vstd::prelude::*;
use crate::server::{path_segments, split_on, split_path, split_text, strings_view};
use crate::text::same_text;

verus! {

/// The first position at or after `i` where a non-empty `sep` occurs in
/// `s`.
pub open spec fn first_match_from(s: Seq<char>, sep: Seq<char>, i: int) -> Option<int>
    decreases s.len() - i,
{
    if i < 0 || sep.len() == 0 || i + sep.len() > s.len() {
        None
    } else if s.subrange(i, i + sep.len()) == sep {
        Some(i)
    } else {
        first_match_from(s, sep, i + 1)
    }
}

/// The text before and after the first occurrence of `sep`.
pub open spec fn split_at_first(s: Seq<char>, sep: Seq<char>) -> Option<(Seq<char>, Seq<char>)> {
    match first_match_from(s, sep, 0) {
        Some(i) => Some((s.subrange(0, i), s.subrange(i + sep.len(), s.len() as int))),
        None => None,
    }
}

/// Splits `s` at the first occurrence of a non-empty `sep`.
pub fn split_once(s: &str, sep: &str) -> (r: Option<(String, String)>)
    requires
        sep@.len() > 0,
    ensures
        match (r, split_at_first(s@, sep@)) {
            (Some((a, b)), Some((x, y))) => a@ == x && b@ == y,
            (None, None) => true,
            _ => false,
        },
{
    let n = s.unicode_len();
    let m = sep.unicode_len();
    if m > n {
        return None;
    }
    let mut i: usize = 0;
    while i <= n - m
        invariant
            n == s@.len(),
            m == sep@.len(),
            m > 0,
            m <= n,
            i <= n,
            first_match_from(s@, sep@, 0) == first_match_from(s@, sep@, i as int),
        decreases n - i,
    {
        let window = s.substring_char(i, i + m);
        if same_text(window, sep) {
            let before = String::from_str(s.substring_char(0, i));
            let after = String::from_str(s.substring_char(i + m, n));
            return Some((before, after));
        }
        i = i + 1;
    }
    None
}

/// Whether a character is white space, as Unicode defines it (and as
/// `str::trim` reads it).
pub open spec fn is_white(c: char) -> bool {
    ('\u{9}' <= c && c <= '\u{D}') || c == ' ' || c == '\u{85}' || c == '\u{A0}' || c == '\u{1680}'
        || ('\u{2000}' <= c && c <= '\u{200A}') || c == '\u{2028}' || c == '\u{2029}' || c == '\u{202F}'
        || c == '\u{205F}' || c == '\u{3000}'
}

fn white(c: char) -> (r: bool)
    ensures
        r == is_white(c),
{
    ('\u{9}' <= c && c <= '\u{D}') || c == ' ' || c == '\u{85}' || c == '\u{A0}' || c == '\u{1680}'
        || ('\u{2000}' <= c && c <= '\u{200A}') || c == '\u{2028}' || c == '\u{2029}' || c == '\u{202F}'
        || c == '\u{205F}' || c == '\u{3000}'
}

/// A text without its leading white space.
pub open spec fn trim_front(s: Seq<char>) -> Seq<char>
    decreases s.len(),
{
    if s.len() > 0 && is_white(s[0]) {
        trim_front(s.drop_first())
    } else {
        s
    }
}

/// A text without its trailing white space.
pub open spec fn trim_back(s: Seq<char>) -> Seq<char>
    decreases s.len(),
{
    if s.len() > 0 && is_white(s.last()) {
        trim_back(s.drop_last())
    } else {
        s
    }
}

pub open spec fn trimmed(s: Seq<char>) -> Seq<char> {
    trim_back(trim_front(s))
}

/// A text without its leading and trailing white space.
pub fn trim_text(s: &str) -> (r: String)
    ensures
        r@ == trimmed(s@),
{
    let n = s.unicode_len();
    let mut a: usize = 0;
    assert(s@.subrange(0, n as int) =~= s@);
    while a < n && white(s.get_char(a))
        invariant
            n == s@.len(),
            a <= n,
            trim_front(s@) == trim_front(s@.subrange(a as int, n as int)),
        decreases n - a,
    {
        assert(s@.subrange(a as int, n as int).drop_first() =~= s@.subrange(a + 1, n as int));
        a = a + 1;
    }
    let ghost front = s@.subrange(a as int, n as int);
    let mut b: usize = n;
    while b > a && white(s.get_char(b - 1))
        invariant
            n == s@.len(),
            a <= b <= n,
            front == s@.subrange(a as int, n as int),
            trim_back(front) == trim_back(s@.subrange(a as int, b as int)),
        decreases b - a,
    {
        assert(s@.subrange(a as int, b as int).drop_last() =~= s@.subrange(a as int, b - 1));
        b = b - 1;
    }
    String::from_str(s.substring_char(a, b))
}

/// The header of a line `key: value`, both trimmed; nothing for a line
/// without `: `.
pub open spec fn header_of(line: Seq<char>) -> Option<(Seq<char>, Seq<char>)> {
    match split_at_first(line, ": "@) {
        Some((k, v)) => Some((trimmed(k), trimmed(v))),
        None => None,
    }
}

/// The headers of a list of lines, in order.
pub open spec fn headers_of(lines: Seq<Seq<char>>) -> Seq<(Seq<char>, Seq<char>)>
    decreases lines.len(),
{
    if lines.len() == 0 {
        Seq::empty()
    } else {
        let prev = headers_of(lines.drop_last());
        match header_of(lines.last()) {
            Some(h) => prev.push(h),
            None => prev,
        }
    }
}

/// The headers of a header block: one per line, lines separated by `\n`.
pub open spec fn header_block(s: Seq<char>) -> Seq<(Seq<char>, Seq<char>)> {
    if s.len() == 0 {
        Seq::empty()
    } else {
        headers_of(split_on(s, '\n'))
    }
}

pub open spec fn pairs_view(v: Seq<(String, String)>) -> Seq<(Seq<char>, Seq<char>)> {
    v.map_values(|p: (String, String)| (p.0@, p.1@))
}

/// The headers of a header block.
pub fn parse_headers(s: &str) -> (r: Vec<(String, String)>)
    ensures
        pairs_view(r@) == header_block(s@),
{
    let mut r: Vec<(String, String)> = Vec::new();
    assert(pairs_view(r@) =~= Seq::<(Seq<char>, Seq<char>)>::empty());
    if s.unicode_len() == 0 {
        return r;
    }
    let lines = split_text(s, '\n');
    let ghost ls = strings_view(lines@);
    let mut i: usize = 0;
    while i < lines.len()
        invariant
            i <= lines@.len(),
            ls == strings_view(lines@),
            pairs_view(r@) == headers_of(ls.subrange(0, i as int)),
        decreases lines@.len() - i,
    {
        proof {
            assert(ls.subrange(0, i + 1).drop_last() =~= ls.subrange(0, i as int));
            assert(ls.subrange(0, i + 1).last() == lines@[i as int]@);
        }
        proof {
            reveal_strlit(": ");
        }
        match split_once(lines[i].as_str(), ": ") {
            Some((k, v)) => {
                let ghost before = pairs_view(r@);
                let pair = (trim_text(k.as_str()), trim_text(v.as_str()));
                r.push(pair);
                assert(pairs_view(r@) =~= before.push((pair.0@, pair.1@)));
            },
            None => {},
        }
        i = i + 1;
    }
    assert(ls.subrange(0, ls.len() as int) =~= ls);
    r
}

/// A request: its method, the segments of its path, its version, its
/// headers as trimmed `(key, value)` pairs in order, and its body text.
pub struct Request {
    pub version: String,
    pub method: String,
    pub path: Vec<String>,
    pub headers: Vec<(String, String)>,
    pub body: String,
}

/// The head and the body of a request text: split at the first blank
/// line, or all head.
pub open spec fn head_and_body(text: Seq<char>) -> (Seq<char>, Seq<char>) {
    match split_at_first(text, "\r\n\r\n"@) {
        Some(p) => p,
        None => (text, Seq::empty()),
    }
}

/// The request line and the header block of a head.
pub open spec fn line_and_headers(head: Seq<char>) -> (Seq<char>, Seq<char>) {
    match split_at_first(head, "\r\n"@) {
        Some(p) => p,
        None => (head, Seq::empty()),
    }
}

/// Whether a request holds what a request text says: the request line is
/// `METHOD PATH VERSION`, separated by single spaces.
pub open spec fn request_of(text: Seq<char>, r: Request) -> bool {
    let (head, body) = head_and_body(text);
    let (line, headers) = line_and_headers(head);
    match split_at_first(line, " "@) {
        Some((method, rest)) => match split_at_first(rest, " "@) {
            Some((path, version)) => {
                &&& r.method@ == method
                &&& strings_view(r.path@) == path_segments(path)
                &&& r.version@ == version
                &&& pairs_view(r.headers@) == header_block(headers)
                &&& r.body@ == body
            },
            None => false,
        },
        None => false,
    }
}

/// Whether a request text has a well-formed request line.
pub open spec fn well_formed(text: Seq<char>) -> bool {
    let (head, body) = head_and_body(text);
    let (line, headers) = line_and_headers(head);
    match split_at_first(line, " "@) {
        Some((method, rest)) => split_at_first(rest, " "@) is Some,
        None => false,
    }
}

impl Request {
    /// Reads a request text.
    pub fn parse(text: &str) -> (r: Result<Request, String>)
        ensures
            match r {
                Ok(req) => well_formed(text@) && request_of(text@, req),
                Err(e) => !well_formed(text@) && e@ == "malformed request line"@,
            },
    {
        proof {
            reveal_strlit("\r\n\r\n");
            reveal_strlit("\r\n");
            reveal_strlit(" ");
        }
        let (head, body) = match split_once(text, "\r\n\r\n") {
            Some(p) => p,
            None => (String::from_str(text), String::new()),
        };
        let (line, headers) = match split_once(head.as_str(), "\r\n") {
            Some(p) => p,
            None => (head, String::new()),
        };
        let (method, rest) = match split_once(line.as_str(), " ") {
            Some(p) => p,
            None => return Err(String::from_str("malformed request line")),
        };
        let (path, version) = match split_once(rest.as_str(), " ") {
            Some(p) => p,
            None => return Err(String::from_str("malformed request line")),
        };
        let segments = split_path(path.as_str());
        Ok(Request { version, method, path: segments, headers: parse_headers(headers.as_str()), body })
    }
}

} // verus!
