//! The credentials that the REST interface is called with, and the token that the desktop
//! application keeps in its preferences.
use vstd::prelude::*;

use crate::symbol::is_space;
use crate::text::{chars_of, find_first, first_occurrence, occurs_at, string_of};

verus! {

/// A context holding the token that authenticates requests.
pub struct Context {
    token: String,
}

impl View for Context {
    type V = Seq<char>;

    closed spec fn view(&self) -> Seq<char> {
        self.token@
    }
}

impl Context {
    /// Creates a context using the provided token.
    pub fn from_token(token: &str) -> (r: Context)
        ensures
            r@ == token@,
    {
        Context { token: string_of(&chars_of(token)) }
    }

    pub fn token(&self) -> (r: &String)
        ensures
            r@ == self@,
    {
        &self.token
    }
}

/// How many whitespace characters (as `\s` of the regex crate reads it, Unicode's
/// White_Space) begin `t`.
pub open spec fn leading_spaces(t: Seq<char>) -> nat
    decreases t.len(),
{
    if t.len() > 0 && is_space(t[0]) {
        1 + leading_spaces(t.drop_first())
    } else {
        0
    }
}

/// How many characters other than `"` begin `t`.
pub open spec fn leading_non_quotes(t: Seq<char>) -> nat
    decreases t.len(),
{
    if t.len() > 0 && t[0] != '"' {
        1 + leading_non_quotes(t.drop_first())
    } else {
        0
    }
}

/// Where the value starts when the quoted key at `p` is followed by optional whitespace, a
/// colon, optional whitespace and an opening quote: just after that quote.
pub open spec fn value_start(s: Seq<char>, p: int) -> Option<int> {
    let a = p + 12;
    let b = a + leading_spaces(s.skip(a));
    if b < s.len() && s[b] == ':' {
        let c = b + 1 + leading_spaces(s.skip(b + 1));
        if c < s.len() && s[c] == '"' {
            Some(c + 1)
        } else {
            None
        }
    } else {
        None
    }
}

/// The pattern `"session-id"\s*:\s*"([^"]*)` matches `s` from position `p`.
pub open spec fn matches_at(s: Seq<char>, p: int) -> bool {
    occurs_at(s, "\"session-id\""@, p) && value_start(s, p) is Some
}

/// `p` is where the pattern first matches `s`.
pub open spec fn first_match(s: Seq<char>, p: int) -> bool {
    matches_at(s, p) && forall|q: int| 0 <= q < p ==> !matches_at(s, q)
}

/// What the pattern `"session-id"\s*:\s*"([^"]*)` captures in its group at its leftmost
/// match: the run of characters other than `"` after the opening quote.
pub open spec fn session_id_capture(json: Seq<char>) -> Option<Seq<char>> {
    if exists|p: int| first_match(json, p) {
        let p = choose|p: int| first_match(json, p);
        let v = value_start(json, p)->0;
        Some(json.subrange(v, v + leading_non_quotes(json.skip(v))))
    } else {
        None
    }
}

/// Relies on `regex::Regex::captures` with the pattern above, which is valid: it finds the
/// leftmost match, where the greedy group takes part, and returns that group's text.
#[verifier::external_body]
fn capture_session_id(json: &str) -> (r: Option<String>)
    ensures
        match r {
            Some(t) => session_id_capture(json@) == Some(t@),
            None => session_id_capture(json@) is None,
        },
{
    let re = regex::Regex::new(r#""session-id"\s*:\s*"([^"]*)"#).ok()?;
    let caps = re.captures(json)?;
    caps.get(1).map(|m| m.as_str().to_string())
}

/// Whether a character is alphabetic or numeric in Unicode.
pub uninterp spec fn alphanumeric(c: char) -> bool;

/// Relies on `char::is_alphanumeric`, which depends on the character alone.
#[verifier::external_body]
fn is_alphanumeric(c: char) -> (r: bool)
    ensures
        r == alphanumeric(c),
{
    c.is_alphanumeric()
}

/// Why no token could be read from the preferences.
#[derive(Clone, Copy, Debug, PartialEq, Eq, Structural)]
pub enum TokenErrorKind {
    /// The token is stored empty.
    TokenMissing,
    /// The key is there but its value could not be read; the error's text is its line,
    /// masked.
    FailedRegex,
    /// The key is not there.
    SessionKeyMissing,
}

#[derive(Clone, Debug)]
pub struct TokenError {
    pub kind: TokenErrorKind,
    pub text: String,
}

/// The start of the line that holds position `p`.
pub open spec fn line_start(s: Seq<char>, p: int) -> int
    decreases p,
{
    if p <= 0 {
        0
    } else if s[p - 1] == '\n' {
        p
    } else {
        line_start(s, p - 1)
    }
}

/// The first line feed from `p` on, or the end.
pub open spec fn line_end(s: Seq<char>, p: int) -> int
    decreases s.len() - p,
{
    if p >= s.len() {
        s.len() as int
    } else if s[p] == '\n' {
        p
    } else {
        line_end(s, p + 1)
    }
}

/// The end of the line that holds position `p`, without a carriage return before its line
/// feed.
pub open spec fn line_stop(s: Seq<char>, p: int) -> int {
    let e = line_end(s, p);
    if e < s.len() && e > line_start(s, p) && s[e - 1] == '\r' {
        e - 1
    } else {
        e
    }
}

/// The line holding the key found at `p`, with every alphanumeric character outside the key
/// replaced by `*`.
pub open spec fn masked_line(s: Seq<char>, p: int, key_len: int) -> Seq<char> {
    let a = line_start(s, p);
    let b = line_stop(s, p);
    Seq::new(
        (b - a) as nat,
        |k: int|
            if alphanumeric(s[a + k]) && (a + k < p || a + k >= p + key_len) {
                '*'
            } else {
                s[a + k]
            },
    )
}

/// The token given what the pattern captured in `json`, or the error and its text.
pub open spec fn token_outcome(json: Seq<char>, capture: Option<Seq<char>>) -> Result<
    Seq<char>,
    (TokenErrorKind, Seq<char>),
> {
    match capture {
        Some(t) => if t.len() == 0 {
            Err((TokenErrorKind::TokenMissing, Seq::empty()))
        } else {
            Ok(t)
        },
        None => if exists|p: int| first_occurrence(json, "session-id"@, p) {
            Err(
                (
                    TokenErrorKind::FailedRegex,
                    masked_line(
                        json,
                        choose|p: int| first_occurrence(json, "session-id"@, p),
                        10,
                    ),
                ),
            )
        } else {
            Err((TokenErrorKind::SessionKeyMissing, Seq::empty()))
        },
    }
}

pub open spec fn text_view(t: Option<String>) -> Option<Seq<char>> {
    match t {
        Some(s) => Some(s@),
        None => None,
    }
}

/// The token, given what the pattern captured in the preferences text `json`: the capture
/// when it is not empty. Without a capture, the error names the line of the key with its
/// alphanumeric characters masked, or says that the key is missing.
pub fn token_from_capture(json: &str, capture: Option<String>) -> (r: Result<String, TokenError>)
    ensures
        match r {
            Ok(t) => token_outcome(json@, text_view(capture)) == Ok::<
                Seq<char>,
                (TokenErrorKind, Seq<char>),
            >(t@),
            Err(e) => token_outcome(json@, text_view(capture)) == Err::<
                Seq<char>,
                (TokenErrorKind, Seq<char>),
            >((e.kind, e.text@)),
        },
{
    match capture {
        Some(t) => {
            if t.as_str().is_empty() {
                let empty: Vec<char> = Vec::new();
                assert(empty@ =~= Seq::<char>::empty());
                return Err(TokenError { kind: TokenErrorKind::TokenMissing, text: string_of(&empty) });
            }
            return Ok(t);
        },
        None => {},
    }
    let s = chars_of(json);
    let key = chars_of("session-id");
    proof {
        reveal_strlit("session-id");
    }
    let p = match find_first(&s, &key) {
        Some(p) => p,
        None => {
            let empty: Vec<char> = Vec::new();
            assert(empty@ =~= Seq::<char>::empty());
            assert(!exists|p: int| first_occurrence(json@, "session-id"@, p));
            return Err(TokenError { kind: TokenErrorKind::SessionKeyMissing, text: string_of(&empty) });
        },
    };
    proof {
        let c = choose|c: int| first_occurrence(json@, "session-id"@, c);
        assert(first_occurrence(json@, "session-id"@, c));
        if c < p {
            assert(!crate::text::occurs_at(s@, key@, c));
        }
        if p < c {
            assert(!crate::text::occurs_at(s@, key@, p as int));
        }
    }
    let mut a: usize = p;
    while a > 0 && s[a - 1] != '\n'
        invariant
            a <= p <= s.len(),
            line_start(s@, p as int) == line_start(s@, a as int),
        decreases a,
    {
        a = a - 1;
    }
    let mut e: usize = p;
    while e < s.len() && s[e] != '\n'
        invariant
            p <= e <= s.len(),
            line_end(s@, p as int) == line_end(s@, e as int),
        decreases s.len() - e,
    {
        e = e + 1;
    }
    let b: usize = if e < s.len() && e > a && s[e - 1] == '\r' {
        e - 1
    } else {
        e
    };
    assert(a <= b) by {
        assert(a <= p);
    }
    let mut out: Vec<char> = Vec::new();
    let mut k: usize = a;
    while k < b
        invariant
            a <= k <= b <= s.len(),
            a <= p,
            out@ =~= Seq::new(
                (k - a) as nat,
                |j: int|
                    if alphanumeric(s@[a + j]) && (a + j < p || a + j >= p + 10) {
                        '*'
                    } else {
                        s@[a + j]
                    },
            ),
        decreases b - k,
    {
        let c = s[k];
        if is_alphanumeric(c) && (k < p || k - p >= 10) {
            out.push('*');
        } else {
            out.push(c);
        }
        k = k + 1;
    }
    let ghost masked = masked_line(json@, p as int, 10);
    assert(out@ =~= masked);
    Err(TokenError { kind: TokenErrorKind::FailedRegex, text: string_of(&out) })
}

/// The session token stored, under the key `session-id`, in the desktop application's
/// preferences text `json`.
pub fn token_from_preferences(json: &str) -> (r: Result<String, TokenError>)
    ensures
        match r {
            Ok(t) => token_outcome(json@, session_id_capture(json@)) == Ok::<
                Seq<char>,
                (TokenErrorKind, Seq<char>),
            >(t@),
            Err(e) => token_outcome(json@, session_id_capture(json@)) == Err::<
                Seq<char>,
                (TokenErrorKind, Seq<char>),
            >((e.kind, e.text@)),
        },
{
    let capture = capture_session_id(json);
    proof {
        assert(text_view(capture) == session_id_capture(json@));
    }
    token_from_capture(json, capture)
}

} // verus!
