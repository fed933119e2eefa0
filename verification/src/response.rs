//! Response normalization: collapsing raw header pairs into a mapping,
//! extracting the content type, parsing the `Set-Cookie` header, and
//! classifying the body as structured JSON or raw text.

use vstd::prelude::*;
use vstd::string::StrSliceExecFns;
use vstd::string::StringExecFns;
use vstd::string::StringSliceAdditionalSpecFns;
use crate::strmap::StringMap;
use crate::strmap::map_of;
use crate::strutil::find_char;
use crate::strutil::find_char_in;
use crate::strutil::lemma_find_char;
use crate::strutil::trimmed;
use crate::strutil::trim_str;
use crate::strutil::contains_seq;
use crate::strutil::str_contains;
use crate::request::vec_pairs;

verus! {

#[verifier::external_type_specification]
#[verifier::external_body]
pub struct ExJsonValue(serde_json::Value);

/// What `serde_json` parses a given text to, if anything. The result is a
/// function of the text alone.
pub uninterp spec fn json_parse(s: Seq<char>) -> Option<serde_json::Value>;

/// Relies on serde_json::from_str::<serde_json::Value>: whether a text is
/// valid JSON, and the value it parses to, depend on the text alone.
#[verifier::external_body]
fn try_parse_json(s: &str) -> (r: Option<serde_json::Value>)
    ensures
        r == json_parse(s@),
{
    match serde_json::from_str(s) {
        Ok(v) => Some(v),
        Err(_) => None,
    }
}

/// A response body: either structured JSON data, or the raw text.
pub enum BodyValue {
    Json(serde_json::Value),
    Text(String),
}

/// The body classification rule: structured JSON exactly when the content
/// type names `application/json` and the text parses; otherwise the raw
/// text, verbatim.
pub open spec fn body_matches(ct: Seq<char>, text: Seq<char>, b: BodyValue) -> bool {
    if contains_seq(ct, "application/json"@) {
        match json_parse(text) {
            Some(v) => b matches BodyValue::Json(j) && j == v,
            None => b matches BodyValue::Text(t) && t@ == text,
        }
    } else {
        b matches BodyValue::Text(t) && t@ == text
    }
}

/// A classified body is structured JSON exactly when the content type
/// names `application/json` and the text is valid JSON; otherwise it is
/// the raw text, verbatim — never empty, never thrown away.
pub proof fn lemma_body_classification(ct: Seq<char>, text: Seq<char>, b: BodyValue)
    requires
        body_matches(ct, text, b),
    ensures
        b is Json <==> (contains_seq(ct, "application/json"@) && json_parse(text) is Some),
        b matches BodyValue::Json(v) ==> json_parse(text) == Some(v),
        b matches BodyValue::Text(t) ==> t@ == text,
{
}

/// Classify a body text under a content type.
pub fn classify_body(content_type: &str, text: String) -> (r: BodyValue)
    ensures
        body_matches(content_type@, text@, r),
{
    if str_contains(content_type, "application/json") {
        match try_parse_json(text.as_str()) {
            Some(v) => BodyValue::Json(v),
            None => BodyValue::Text(text),
        }
    } else {
        BodyValue::Text(text)
    }
}

/// The pieces of a sequence between occurrences of a delimiter, in order.
pub open spec fn split_on(s: Seq<char>, d: char) -> Seq<Seq<char>>
    decreases s.len(),
{
    match find_char(s, d) {
        None => seq![s],
        Some(i) => if 0 <= i && i + 1 <= s.len() {
            seq![s.subrange(0, i)] + split_on(s.subrange(i + 1, s.len() as int), d)
        } else {
            seq![s]
        },
    }
}

/// The cookie pair a `Set-Cookie` segment yields: of the portion before
/// the first `;`, the text before the first `=` names the cookie and the
/// text after it is the value, both trimmed; a segment without `=` yields
/// nothing.
pub open spec fn cookie_pair_of(seg: Seq<char>) -> Option<(Seq<char>, Seq<char>)> {
    let part = match find_char(seg, ';') {
        Some(i) => seg.subrange(0, i),
        None => seg,
    };
    match find_char(part, '=') {
        Some(j) => Some(
            (trimmed(part.subrange(0, j)), trimmed(part.subrange(j + 1, part.len() as int))),
        ),
        None => None,
    }
}

/// One segment applied to a cookie mapping: later segments overwrite
/// earlier ones with the same name.
pub open spec fn apply_cookie_segment_spec(
    m: Map<Seq<char>, Seq<char>>,
    seg: Seq<char>,
) -> Map<Seq<char>, Seq<char>> {
    match cookie_pair_of(seg) {
        Some(p) => m.insert(p.0, p.1),
        None => m,
    }
}

/// All segments applied in order.
pub open spec fn insert_cookie_segments(
    m: Map<Seq<char>, Seq<char>>,
    segs: Seq<Seq<char>>,
) -> Map<Seq<char>, Seq<char>>
    decreases segs.len(),
{
    if segs.len() == 0 {
        m
    } else {
        insert_cookie_segments(apply_cookie_segment_spec(m, segs[0]), segs.drop_first())
    }
}

/// The cookie mapping a raw `Set-Cookie` header value denotes: the value
/// split on `,`, each piece reduced to its first `;`-delimited portion and
/// read as a trimmed `name=value` pair. Best effort: a cookie value that
/// itself holds `,` or `;` is cut short, as the splitting rule says.
pub open spec fn parse_set_cookie_text(s: Seq<char>) -> Map<Seq<char>, Seq<char>> {
    insert_cookie_segments(Map::empty(), split_on(s, ','))
}

fn apply_cookie_segment(m: &mut StringMap, seg: &str)
    requires
        old(m).wf(),
    ensures
        final(m).wf(),
        final(m)@ == apply_cookie_segment_spec(old(m)@, seg@),
{
    let part: &str = match find_char_in(seg, ';') {
        Some(i) => {
            proof {
                lemma_find_char(seg@, ';');
            }
            seg.substring_char(0, i)
        },
        None => seg,
    };
    match find_char_in(part, '=') {
        Some(j) => {
            proof {
                lemma_find_char(part@, '=');
            }
            let pn = part.unicode_len();
            let name = trim_str(part.substring_char(0, j));
            let value = trim_str(part.substring_char(j + 1, pn));
            m.insert(String::from_str(name), String::from_str(value));
        },
        None => {},
    }
}

/// Parse a raw `Set-Cookie` header value into a cookie mapping.
pub fn parse_set_cookie(s: &str) -> (r: StringMap)
    ensures
        r.wf(),
        r@ == parse_set_cookie_text(s@),
{
    let mut m = StringMap::new();
    let mut rem: &str = s;
    loop
        invariant
            m.wf(),
            insert_cookie_segments(m@, split_on(rem@, ',')) == parse_set_cookie_text(s@),
        decreases rem@.len(),
    {
        match find_char_in(rem, ',') {
            Some(i) => {
                proof {
                    lemma_find_char(rem@, ',');
                }
                let rn = rem.unicode_len();
                let seg = rem.substring_char(0, i);
                let next = rem.substring_char(i + 1, rn);
                let ghost ss = split_on(rem@, ',');
                let ghost m0 = m@;
                proof {
                    assert(ss == seq![seg@] + split_on(next@, ','));
                    assert(ss[0] == seg@);
                    assert(ss.drop_first() =~= split_on(next@, ','));
                }
                apply_cookie_segment(&mut m, seg);
                proof {
                    assert(insert_cookie_segments(m0, ss) == insert_cookie_segments(
                        apply_cookie_segment_spec(m0, seg@),
                        split_on(next@, ','),
                    ));
                    assert(m@ == apply_cookie_segment_spec(m0, seg@));
                }
                rem = next;
            },
            None => {
                let ghost ss = split_on(rem@, ',');
                let ghost m0 = m@;
                proof {
                    assert(ss == seq![rem@]);
                    assert(ss[0] == rem@);
                    assert(ss.drop_first() =~= Seq::<Seq<char>>::empty());
                }
                apply_cookie_segment(&mut m, rem);
                proof {
                    assert(insert_cookie_segments(m0, ss) == insert_cookie_segments(
                        apply_cookie_segment_spec(m0, rem@),
                        ss.drop_first(),
                    ));
                    assert(insert_cookie_segments(m@, ss.drop_first()) == m@);
                }
                return m;
            },
        }
    }
}

/// A normalized, fully read outcome of one HTTP call.
pub struct HttpResponse {
    /// The transport's status code.
    pub status_code: u16,
    /// Wall-clock milliseconds from the start of the call to the end of
    /// the body read, as measured by the caller.
    pub time: u64,
    /// Byte length of the raw body text.
    pub size: usize,
    /// Response headers, later raw pairs overwriting earlier ones.
    pub headers: StringMap,
    /// Cookies parsed out of the `Set-Cookie` header, if one was present.
    pub cookies: StringMap,
    /// The classified body: structured JSON or the raw text.
    pub body: BodyValue,
    /// The `content-type` header value, or `text/plain` if absent.
    pub content_type: String,
}

/// The content type a header mapping yields.
pub open spec fn content_type_of(h: Map<Seq<char>, Seq<char>>) -> Seq<char> {
    if h.contains_key("content-type"@) {
        h["content-type"@]
    } else {
        "text/plain"@
    }
}

/// The cookie mapping a header mapping yields.
pub open spec fn cookies_of(h: Map<Seq<char>, Seq<char>>) -> Map<Seq<char>, Seq<char>> {
    if h.contains_key("set-cookie"@) {
        parse_set_cookie_text(h["set-cookie"@])
    } else {
        Map::empty()
    }
}

/// Normalize a raw transport outcome. `raw_headers` holds the response
/// header pairs in the order the transport exposed them, names already in
/// the transport's canonical lower case; a repeated name keeps its last
/// value. `elapsed_ms` is the wall-clock time the caller measured around
/// the call.
pub fn normalize_response(
    status_code: u16,
    raw_headers: Vec<(String, String)>,
    body_text: String,
    elapsed_ms: u64,
) -> (r: HttpResponse)
    ensures
        r.status_code == status_code,
        r.time == elapsed_ms,
        r.size == vstd::utf8::encode_utf8(body_text@).len() as usize,
        r.headers.wf(),
        r.headers@ == map_of(vec_pairs(raw_headers@)),
        r.content_type@ == content_type_of(r.headers@),
        r.cookies.wf(),
        r.cookies@ == cookies_of(r.headers@),
        body_matches(r.content_type@, body_text@, r.body),
{
    let mut hm = StringMap::new();
    let n = raw_headers.len();
    let mut i: usize = 0;
    while i < n
        invariant
            i <= n,
            n == raw_headers@.len(),
            hm.wf(),
            hm@ == map_of(vec_pairs(raw_headers@).subrange(0, i as int)),
        decreases n - i,
    {
        let k = raw_headers[i].0.clone();
        let v = raw_headers[i].1.clone();
        hm.insert(k, v);
        proof {
            let vp = vec_pairs(raw_headers@);
            assert(vp.subrange(0, i + 1).drop_last() =~= vp.subrange(0, i as int));
            assert(vp.subrange(0, i + 1).last() == vp[i as int]);
        }
        i = i + 1;
    }
    proof {
        assert(vec_pairs(raw_headers@).subrange(0, n as int) =~= vec_pairs(raw_headers@));
    }
    let content_type: String = match hm.get("content-type") {
        Some(ct) => ct,
        None => String::from_str("text/plain"),
    };
    let cookies: StringMap = match hm.get("set-cookie") {
        Some(sc) => parse_set_cookie(sc.as_str()),
        None => StringMap::new(),
    };
    let bs = body_text.as_str();
    let size = bs.len();
    proof {
        assert(bs.spec_bytes() == vstd::utf8::encode_utf8(body_text@));
    }
    let body = classify_body(content_type.as_str(), body_text);
    HttpResponse { status_code, time: elapsed_ms, size, headers: hm, cookies, body, content_type }
}

} // verus!
