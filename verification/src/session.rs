//! Session derivation: the decision core of the authentication stage.
//!
//! The remote host issues no token endpoint; a session is derived from the
//! response to a basic-auth probe of `{baseUrl}/a/{canvasName}`. The response
//! must have status 200, carry a `Set-Cookie` header (replayed verbatim as
//! the session cookie), and embed a CSRF token declaration of the shape
//! `const csrfToken = "TOKEN";` in its body; the first such declaration
//! supplies the token.

use vstd::prelude::*;
use vstd::string::*;
use crate::error::DarkError;
use crate::scan::{find_char, prefix_matches_at};

verus! {

/// The literal that opens a CSRF token declaration, closing quote included.
pub open spec fn csrf_prefix() -> Seq<char> {
    "const csrfToken = \""@
}

/// The token declaration's opening literal occurs in `body` at position `i`.
pub open spec fn prefix_at(body: Seq<char>, i: int) -> bool {
    &&& 0 <= i
    &&& i + csrf_prefix().len() <= body.len()
    &&& body.subrange(i, i + csrf_prefix().len()) == csrf_prefix()
}

/// A whole token declaration occurs at position `i`, its token ending at the
/// closing quote at position `q`: the opening literal at `i`, no quote inside
/// the token, and `";` right after it.
pub open spec fn close_at(body: Seq<char>, i: int, q: int) -> bool {
    &&& prefix_at(body, i)
    &&& i + csrf_prefix().len() <= q
    &&& q + 2 <= body.len()
    &&& body[q] == '"'
    &&& body[q + 1] == ';'
    &&& forall|k: int| i + csrf_prefix().len() <= k < q ==> body[k] != '"'
}

/// A whole token declaration occurs at position `i`.
pub open spec fn match_at(body: Seq<char>, i: int) -> bool {
    exists|q: int| close_at(body, i, q)
}

/// `body` holds at least one token declaration.
pub open spec fn has_csrf_token(body: Seq<char>) -> bool {
    exists|i: int| match_at(body, i)
}

/// The token of the declaration at position `i`: the characters between the
/// opening literal and the closing quote.
pub open spec fn token_at(body: Seq<char>, i: int) -> Seq<char> {
    let q = choose|q: int| close_at(body, i, q);
    body.subrange(i + csrf_prefix().len(), q)
}

/// Position `i` holds the leftmost token declaration of `body`.
pub open spec fn is_first_match(body: Seq<char>, i: int) -> bool {
    &&& match_at(body, i)
    &&& forall|j: int| 0 <= j < i ==> !match_at(body, j)
}

/// A declaration at `i` has exactly one closing-quote position: the first
/// quote after the opening literal.
pub proof fn lemma_close_unique(body: Seq<char>, i: int, q1: int, q2: int)
    requires
        close_at(body, i, q1),
        close_at(body, i, q2),
    ensures
        q1 == q2,
{
    if q1 < q2 {
        assert(body[q1] != '"');
    }
    if q2 < q1 {
        assert(body[q2] != '"');
    }
}

/// Extract the CSRF token from a probe response body: the capture of the
/// leftmost occurrence of `const csrfToken = "([^"]*)";`, if any.
pub fn extract_csrf_token(body: &str) -> (r: Option<String>)
    ensures
        r is Some <==> has_csrf_token(body@),
        r matches Some(t) ==> exists|i: int|
            #[trigger] is_first_match(body@, i) && t@ == token_at(body@, i),
{
    let pref: &str = "const csrfToken = \"";
    let plen = pref.unicode_len();
    let n = body.unicode_len();
    proof {
        reveal_strlit("const csrfToken = \"");
        assert(pref@ == csrf_prefix());
    }
    if n < plen {
        proof {
            assert forall|i: int| !match_at(body@, i) by {
                if match_at(body@, i) {
                    let q = choose|q: int| close_at(body@, i, q);
                }
            }
        }
        return None;
    }
    let mut i: usize = 0;
    while i <= n - plen
        invariant
            pref@ == csrf_prefix(),
            plen == csrf_prefix().len(),
            1 <= plen,
            n == body@.len(),
            n <= usize::MAX,
            plen <= n,
            i <= n - plen + 1,
            forall|j: int| 0 <= j < i ==> !match_at(body@, j),
        decreases n - plen + 1 - i,
    {
        if prefix_matches_at(body, pref, i) {
            let tok_start = i + plen;
            match find_char(body, tok_start, '"') {
                Some(q) => {
                    if q + 1 < n && body.get_char(q + 1) == ';' {
                        let tok = body.substring_char(tok_start, q).to_owned();
                        proof {
                            assert(prefix_at(body@, i as int));
                            assert(close_at(body@, i as int, q as int));
                            assert(match_at(body@, i as int));
                            assert(is_first_match(body@, i as int));
                            let qc = choose|qq: int| close_at(body@, i as int, qq);
                            lemma_close_unique(body@, i as int, qc, q as int);
                            assert(tok@ == token_at(body@, i as int));
                        }
                        return Some(tok);
                    } else {
                        proof {
                            assert forall|qq: int| !close_at(body@, i as int, qq) by {
                                if close_at(body@, i as int, qq) {
                                    if qq < q {
                                        assert(body@[qq] != '"');
                                    }
                                    if qq > q {
                                        assert(body@[q as int] != '"');
                                    }
                                }
                            }
                            assert(!match_at(body@, i as int));
                        }
                        i += 1;
                    }
                },
                None => {
                    proof {
                        assert forall|j: int| !match_at(body@, j) by {
                            if match_at(body@, j) && j >= i {
                                let q = choose|qq: int| close_at(body@, j, qq);
                                assert(body@[q] != '"');
                            }
                        }
                    }
                    return None;
                },
            }
        } else {
            proof {
                assert(!prefix_at(body@, i as int));
                assert(!match_at(body@, i as int));
            }
            i += 1;
        }
    }
    proof {
        assert forall|j: int| !match_at(body@, j) by {
            if match_at(body@, j) && j >= i {
                assert(prefix_at(body@, j));
            }
        }
    }
    None
}

/// A derived session: the raw cookie to replay and the scraped CSRF token.
/// Valid only for the lifetime of one run; never refreshed or persisted.
pub struct Session {
    pub cookie_value: String,
    pub csrf_token: String,
}

/// The authentication probe's address: `{baseUrl}/a/{canvasName}`.
pub fn auth_probe_url(base_url: &str, canvas: &str) -> (r: String)
    ensures
        r@ == base_url@ + "/a/"@ + canvas@,
{
    let r = String::from_str(base_url).concat("/a/").concat(canvas);
    proof {
        assert(r@ =~= base_url@ + "/a/"@ + canvas@);
    }
    r
}

/// Derive a session from what the probe returned: its HTTP status, its
/// `Set-Cookie` header if any (taken verbatim), and its body. Fails with
/// `AuthFailure` on a non-200 status, `MissingSessionCookie` without the
/// header, and `TokenExtractionFailure` when the body holds no token
/// declaration; otherwise the session carries the cookie and the leftmost
/// declaration's token.
pub fn derive_session(status: u16, set_cookie: Option<String>, body: &str) -> (r: Result<
    Session,
    DarkError,
>)
    ensures
        status != 200 ==> (r matches Err(e) && e == DarkError::AuthFailure(status)),
        status == 200 && set_cookie is None ==> (r matches Err(e) && e
            == DarkError::MissingSessionCookie),
        status == 200 && set_cookie is Some && !has_csrf_token(body@) ==> (r matches Err(e) && e
            == DarkError::TokenExtractionFailure),
        status == 200 && has_csrf_token(body@) ==> (set_cookie matches Some(c) ==> (r matches Ok(s)
            && s.cookie_value == c && exists|i: int|
            #[trigger] is_first_match(body@, i) && s.csrf_token@ == token_at(body@, i))),
{
    if status != 200 {
        return Err(DarkError::AuthFailure(status));
    }
    let cookie = match set_cookie {
        Some(c) => c,
        None => {
            return Err(DarkError::MissingSessionCookie);
        },
    };
    match extract_csrf_token(body) {
        Some(tok) => Ok(Session { cookie_value: cookie, csrf_token: tok }),
        None => Err(DarkError::TokenExtractionFailure),
    }
}

} // verus!
