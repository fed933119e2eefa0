//! Outbound request preparation: method validation and assembly of the
//! header list that the transport will apply, including the composed
//! `Cookie` header.

use vstd::prelude::*;
use vstd::string::StrSliceExecFns;
use vstd::string::StringExecFns;
use crate::strmap::StringMap;

verus! {

/// A caller-supplied description of one HTTP call to perform.
pub struct RequestPayload {
    /// HTTP verb token, validated before any network work happens.
    pub method: String,
    /// Absolute target URL, passed to the transport as given.
    pub url: String,
    /// Header name to value; mapping semantics make keys unique.
    pub headers: StringMap,
    /// Optional cookie name to value mapping; when non-empty it is folded
    /// into a single `Cookie` header.
    pub cookies: Option<StringMap>,
    /// Optional raw body, sent verbatim.
    pub body: Option<String>,
}

/// A validated request, reduced to the plain values the transport needs:
/// the method token, the URL, the headers in application order, and the
/// body.
pub struct PreparedRequest {
    pub method: String,
    pub url: String,
    pub headers: Vec<(String, String)>,
    pub body: Option<String>,
}

/// The characters an HTTP method token may hold: the token characters
/// `! # $ % & ' * + - . ^ _ ` | ~`, digits and ASCII letters.
pub open spec fn is_method_char(c: char) -> bool {
    ||| c == '!'
    ||| c == '#'
    ||| c == '$'
    ||| c == '%'
    ||| c == '&'
    ||| c == '\''
    ||| c == '*'
    ||| c == '+'
    ||| c == '-'
    ||| c == '.'
    ||| c == '^'
    ||| c == '_'
    ||| c == '`'
    ||| c == '|'
    ||| c == '~'
    ||| ('0' as u32) <= (c as u32) && (c as u32) <= ('9' as u32)
    ||| ('A' as u32) <= (c as u32) && (c as u32) <= ('Z' as u32)
    ||| ('a' as u32) <= (c as u32) && (c as u32) <= ('z' as u32)
}

/// A valid method token is non-empty and holds token characters only.
pub open spec fn valid_method_token(s: Seq<char>) -> bool {
    s.len() > 0 && forall|i: int| 0 <= i < s.len() ==> is_method_char(s[i])
}

/// Runtime test for `valid_method_token`.
pub fn validate_method(s: &str) -> (r: bool)
    ensures
        r == valid_method_token(s@),
{
    let n = s.unicode_len();
    if n == 0 {
        return false;
    }
    let mut i: usize = 0;
    while i < n
        invariant
            i <= n,
            n == s@.len(),
            forall|j: int| 0 <= j < i ==> is_method_char(s@[j]),
        decreases n - i,
    {
        let c = s.get_char(i);
        let u = c as u32;
        let token = c == '!' || c == '#' || c == '$' || c == '%' || c == '&' || c == '\'' || c
            == '*' || c == '+' || c == '-' || c == '.' || c == '^' || c == '_' || c == '`' || c
            == '|' || c == '~';
        let digit = ('0' as u32) <= u && u <= ('9' as u32);
        let upper = ('A' as u32) <= u && u <= ('Z' as u32);
        let lower = ('a' as u32) <= u && u <= ('z' as u32);
        if !(token || digit || upper || lower) {
            return false;
        }
        i = i + 1;
    }
    true
}

/// The text of one `name=value` cookie segment.
pub open spec fn cookie_pair_text(p: (Seq<char>, Seq<char>)) -> Seq<char> {
    p.0 + seq!['='] + p.1
}

/// The single `Cookie` header value: every pair as `name=value`, joined
/// with `"; "`.
pub open spec fn cookie_header_text(pairs: Seq<(Seq<char>, Seq<char>)>) -> Seq<char>
    decreases pairs.len(),
{
    if pairs.len() == 0 {
        Seq::empty()
    } else if pairs.len() == 1 {
        cookie_pair_text(pairs[0])
    } else {
        cookie_header_text(pairs.drop_last()) + seq![';', ' '] + cookie_pair_text(pairs.last())
    }
}

/// Join a cookie mapping into one `Cookie` header value.
pub fn cookie_header_value(m: &StringMap) -> (r: String)
    ensures
        r@ == cookie_header_text(m.pairs()),
{
    let mut out = String::new();
    let n = m.len();
    let mut i: usize = 0;
    while i < n
        invariant
            i <= n,
            n == m.pairs().len(),
            out@ == cookie_header_text(m.pairs().subrange(0, i as int)),
        decreases n - i,
    {
        if i > 0 {
            out.append("; ");
        }
        let e = m.entry_at(i);
        out.append(e.0.as_str());
        out.append("=");
        out.append(e.1.as_str());
        proof {
            reveal_strlit("; ");
            reveal_strlit("=");
            assert("; "@ =~= seq![';', ' ']);
            assert("="@ =~= seq!['=']);
            let pre = m.pairs().subrange(0, i as int);
            let cur = m.pairs().subrange(0, i + 1);
            assert(cur.drop_last() =~= pre);
            assert(cur.last() == m.pairs()[i as int]);
            assert(out@ =~= cookie_header_text(cur));
        }
        i = i + 1;
    }
    proof {
        assert(m.pairs().subrange(0, n as int) =~= m.pairs());
    }
    out
}

/// The views of an owned pair list.
pub open spec fn vec_pairs(v: Seq<(String, String)>) -> Seq<(Seq<char>, Seq<char>)> {
    Seq::new(v.len(), |i: int| (v[i].0@, v[i].1@))
}

impl RequestPayload {
    /// Both mappings are well-formed.
    pub open spec fn wf(&self) -> bool {
        &&& self.headers.wf()
        &&& (self.cookies matches Some(c) ==> c.wf())
    }

    /// The cookie pairs, or the empty sequence when no mapping was given.
    pub open spec fn cookie_pairs(&self) -> Seq<(Seq<char>, Seq<char>)> {
        match self.cookies {
            Some(c) => c.pairs(),
            None => Seq::empty(),
        }
    }
}

/// The headers the transport is to apply, in order: every caller header,
/// then one composed `Cookie` header when a non-empty cookie mapping was
/// supplied. If the caller also put an explicit `Cookie` entry in
/// `headers`, both are listed; which one the transport ends up sending is
/// a known ambiguity of the order of application, left as it is.
pub open spec fn outbound_header_pairs(p: &RequestPayload) -> Seq<(Seq<char>, Seq<char>)> {
    if p.cookie_pairs().len() > 0 {
        p.headers.pairs().push(("Cookie"@, cookie_header_text(p.cookie_pairs())))
    } else {
        p.headers.pairs()
    }
}

/// Validate a request description and reduce it to the plain values the
/// transport applies. Fails exactly when the method token is invalid, and
/// then nothing is sent: the network call only ever happens on the
/// prepared result.
pub fn prepare_request(p: &RequestPayload) -> (r: Result<PreparedRequest, String>)
    requires
        p.wf(),
    ensures
        r is Ok <==> valid_method_token(p.method@),
        r matches Ok(q) ==> {
            &&& q.method@ == p.method@
            &&& q.url@ == p.url@
            &&& vec_pairs(q.headers@) == outbound_header_pairs(p)
            &&& match p.body {
                Some(b) => q.body matches Some(qb) && qb@ == b@,
                None => q.body is None,
            }
        },
{
    if !validate_method(p.method.as_str()) {
        return Err(String::from_str("invalid HTTP method"));
    }
    let mut hs: Vec<(String, String)> = Vec::new();
    let n = p.headers.len();
    let mut i: usize = 0;
    while i < n
        invariant
            i <= n,
            n == p.headers.pairs().len(),
            hs@.len() == i,
            forall|k: int|
                0 <= k < i ==> ((#[trigger] hs@[k]).0@, hs@[k].1@) == p.headers.pairs()[k],
        decreases n - i,
    {
        let e = p.headers.entry_at(i);
        hs.push(e);
        i = i + 1;
    }
    proof {
        assert(vec_pairs(hs@) =~= p.headers.pairs());
    }
    match &p.cookies {
        Some(c) => {
            if c.len() > 0 {
                let cv = cookie_header_value(c);
                let ghost hs1 = hs@;
                let ck = String::from_str("Cookie");
                hs.push((ck, cv));
                proof {
                    let target = p.headers.pairs().push(
                        ("Cookie"@, cookie_header_text(p.cookie_pairs())),
                    );
                    assert(p.cookie_pairs() == c.pairs());
                    assert forall|k: int| 0 <= k < target.len() implies #[trigger] vec_pairs(
                        hs@,
                    )[k] == target[k] by {
                        if k < hs1.len() {
                            assert(hs@[k] == hs1[k]);
                            assert(vec_pairs(hs1)[k] == p.headers.pairs()[k]);
                        } else {
                            assert(hs@[k] == (ck, cv));
                        }
                    }
                    assert(vec_pairs(hs@) =~= target);
                }
            }
        },
        None => {},
    }
    let body = match &p.body {
        Some(b) => Some(b.clone()),
        None => None,
    };
    Ok(PreparedRequest { method: p.method.clone(), url: p.url.clone(), headers: hs, body })
}

} // verus!
