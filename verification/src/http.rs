//! The HTTP convenience call: deciding the request (verb, headers, body)
//! against the session, and framing the response envelope.
//!
//! The request itself is executed by the caller through a proxy endpoint the
//! client exposes; this module only decides whether and what to send, and
//! renders what came back as one JSON envelope.

use vstd::prelude::*;
use vstd::string::{StrSliceExecFns, StringExecFns};

use crate::errors::BridgeError;
use crate::ident::{decimal_digits, format_u64};
use crate::json::{
    append_json_object, append_json_string, json_object, json_string, pair_views,
};
use crate::session::Session;

verus! {

/// The supported HTTP verbs. Any other verb fails fast, before any network
/// work.
#[derive(Clone, Copy, Debug, PartialEq, Eq, Structural)]
pub enum Method {
    Get,
    Post,
    Put,
    Delete,
    Head,
    Patch,
}

/// Whether `s` spells the verb whose upper-case and lower-case letters are
/// `upper` and `lower`, matching each position without regard to case.
pub open spec fn verb_eq(s: Seq<char>, upper: Seq<char>, lower: Seq<char>) -> bool {
    s.len() == upper.len() && forall|i: int|
        0 <= i < s.len() ==> ((#[trigger] s[i]) == upper[i] || s[i] == lower[i])
}

/// The verb a method string names, compared without regard to ASCII case.
pub open spec fn method_of(s: Seq<char>) -> Option<Method> {
    if verb_eq(s, "GET"@, "get"@) {
        Some(Method::Get)
    } else if verb_eq(s, "POST"@, "post"@) {
        Some(Method::Post)
    } else if verb_eq(s, "PUT"@, "put"@) {
        Some(Method::Put)
    } else if verb_eq(s, "DELETE"@, "delete"@) {
        Some(Method::Delete)
    } else if verb_eq(s, "HEAD"@, "head"@) {
        Some(Method::Head)
    } else if verb_eq(s, "PATCH"@, "patch"@) {
        Some(Method::Patch)
    } else {
        None
    }
}

/// Character-wise case-insensitive match of `s` against one verb.
fn verb_matches(s: &str, upper: &str, lower: &str) -> (r: bool)
    requires
        upper@.len() == lower@.len(),
    ensures
        r == verb_eq(s@, upper@, lower@),
{
    let n = s.unicode_len();
    if n != upper.unicode_len() {
        return false;
    }
    let mut i: usize = 0;
    while i < n
        invariant
            n == s@.len(),
            n == upper@.len(),
            n == lower@.len(),
            i <= n,
            forall|j: int| 0 <= j < i ==> ((#[trigger] s@[j]) == upper@[j] || s@[j] == lower@[j]),
        decreases n - i,
    {
        let c = s.get_char(i);
        let u = upper.get_char(i);
        let l = lower.get_char(i);
        if c != u && c != l {
            return false;
        }
        i = i + 1;
    }
    true
}

/// The verb named by a method string, if it is supported.
pub fn parse_method(method: &str) -> (r: Option<Method>)
    ensures
        r == method_of(method@),
{
    proof {
        reveal_strlit("GET");
        reveal_strlit("get");
        reveal_strlit("POST");
        reveal_strlit("post");
        reveal_strlit("PUT");
        reveal_strlit("put");
        reveal_strlit("DELETE");
        reveal_strlit("delete");
        reveal_strlit("HEAD");
        reveal_strlit("head");
        reveal_strlit("PATCH");
        reveal_strlit("patch");
    }
    if verb_matches(method, "GET", "get") {
        Some(Method::Get)
    } else if verb_matches(method, "POST", "post") {
        Some(Method::Post)
    } else if verb_matches(method, "PUT", "put") {
        Some(Method::Put)
    } else if verb_matches(method, "DELETE", "delete") {
        Some(Method::Delete)
    } else if verb_matches(method, "HEAD", "head") {
        Some(Method::Head)
    } else if verb_matches(method, "PATCH", "patch") {
        Some(Method::Patch)
    } else {
        None
    }
}

/// What the header text parses to: `None` when it is not a JSON object with
/// string keys, otherwise the fields in the object's own (key) order, each
/// value kept when it is a JSON string and marked absent otherwise.
pub uninterp spec fn json_object_fields_of(text: Seq<char>) -> Option<
    Seq<(Seq<char>, Option<Seq<char>>)>,
>;

/// The views of parsed fields, values kept as parsed.
pub open spec fn field_views(fields: Seq<(String, Option<String>)>) -> Seq<
    (Seq<char>, Option<Seq<char>>),
> {
    fields.map_values(
        |p: (String, Option<String>)|
            (
                p.0@,
                match p.1 {
                    Some(v) => Some(v@),
                    None => None,
                },
            ),
    )
}

/// The fields whose values are strings, in order, unwrapped.
pub open spec fn string_fields(fields: Seq<(Seq<char>, Option<Seq<char>>)>) -> Seq<
    (Seq<char>, Seq<char>),
>
    decreases fields.len(),
{
    if fields.len() == 0 {
        Seq::empty()
    } else {
        let rest = string_fields(fields.skip(1));
        match fields[0].1 {
            Some(v) => seq![(fields[0].0, v)] + rest,
            None => rest,
        }
    }
}

/// The kept fields gain one trailing pair exactly when an appended field
/// holds a string value.
proof fn lemma_string_fields_snoc(
    fields: Seq<(Seq<char>, Option<Seq<char>>)>,
    f: (Seq<char>, Option<Seq<char>>),
)
    ensures
        string_fields(fields.push(f)) == string_fields(fields) + (match f.1 {
            Some(v) => seq![(f.0, v)],
            None => Seq::<(Seq<char>, Seq<char>)>::empty(),
        }),
    decreases fields.len(),
{
    let pushed = fields.push(f);
    let tail = (match f.1 {
        Some(v) => seq![(f.0, v)],
        None => Seq::<(Seq<char>, Seq<char>)>::empty(),
    });
    if fields.len() == 0 {
        assert(pushed[0] == f);
        assert(pushed.skip(1) =~= Seq::<(Seq<char>, Option<Seq<char>>)>::empty());
        assert(string_fields(Seq::<(Seq<char>, Option<Seq<char>>)>::empty()) =~= Seq::<
            (Seq<char>, Seq<char>),
        >::empty());
        match f.1 {
            Some(v) => {
                assert(string_fields(pushed) == seq![(f.0, v)] + string_fields(pushed.skip(1)));
                assert(string_fields(pushed) =~= tail);
            },
            None => {
                assert(string_fields(pushed) =~= tail);
            },
        }
        assert(string_fields(fields) + tail =~= tail);
    } else {
        assert(pushed[0] == fields[0]);
        assert(pushed.skip(1) =~= fields.skip(1).push(f));
        lemma_string_fields_snoc(fields.skip(1), f);
        match fields[0].1 {
            Some(v) => {
                assert(seq![(fields[0].0, v)] + (string_fields(fields.skip(1)) + tail) =~= (seq![
                    (fields[0].0, v),
                ] + string_fields(fields.skip(1))) + tail);
            },
            None => {},
        }
    }
}

/// Relies on `serde_json::from_str` deserializing into `serde_json::Map`:
/// the text parses exactly when it is one JSON object; the map holds its
/// fields ordered by key (it is backed by an ordered map, so the result is a
/// function of the text alone), and each value is handed on as a string when
/// it is a JSON string and as absent otherwise.
#[verifier::external_body]
fn parse_json_object(text: &str) -> (r: Option<Vec<(String, Option<String>)>>)
    ensures
        match r {
            Some(fields) => json_object_fields_of(text@) == Some(field_views(fields@)),
            None => json_object_fields_of(text@) is None,
        },
{
    match serde_json::from_str::<serde_json::Map<String, serde_json::Value>>(text) {
        Ok(m) => Some(
            m.into_iter().map(
                |(k, v)| match v {
                    serde_json::Value::String(s) => (k, Some(s)),
                    _ => (k, None),
                },
            ).collect(),
        ),
        Err(_) => None,
    }
}

/// Keep the fields that hold string values, unwrapped, in order.
fn keep_string_values(fields: Vec<(String, Option<String>)>) -> (r: Vec<(String, String)>)
    ensures
        pair_views(r@) == string_fields(field_views(fields@)),
{
    let mut out: Vec<(String, String)> = Vec::new();
    let n = fields.len();
    let mut i: usize = 0;
    while i < n
        invariant
            n == fields@.len(),
            i <= n,
            pair_views(out@) == string_fields(field_views(fields@).take(i as int)),
        decreases n - i,
    {
        let ghost parsed = field_views(fields@);
        proof {
            assert(parsed.take(i as int + 1) =~= parsed.take(i as int).push(parsed[i as int]));
            lemma_string_fields_snoc(parsed.take(i as int), parsed[i as int]);
        }
        match &fields[i].1 {
            Some(v) => {
                let key = fields[i].0.clone();
                let value = v.clone();
                out.push((key, value));
                proof {
                    assert(parsed[i as int].1 matches Some(w) && w == fields@[i as int].1.unwrap()@);
                    assert(pair_views(out@) =~= string_fields(parsed.take(i as int + 1)));
                }
            },
            None => {
                proof {
                    assert(parsed[i as int].1 is None);
                    assert(pair_views(out@) =~= string_fields(parsed.take(i as int + 1)));
                }
            },
        }
        i = i + 1;
    }
    proof {
        assert(field_views(fields@).take(n as int) =~= field_views(fields@));
    }
    out
}

/// A decided HTTP request: everything the executing caller needs, validated
/// and in plain form.
#[derive(Debug)]
pub struct HttpPlan {
    /// The supported verb the request uses.
    pub method: Method,
    /// The request target, handed on as given.
    pub url: String,
    /// The headers to attach: the string-valued fields of the header object.
    pub headers: Vec<(String, String)>,
    /// The body to attach, absent when the given body was empty.
    pub body: Option<String>,
}

impl<R, C, S, T> Session<R, C, S, T> {
    /// Decide the HTTP convenience call: resolve the circuit (only to
    /// confirm the client exists), validate the verb, and parse the header
    /// object. Failing any of these, nothing is to be sent; otherwise the
    /// returned plan pins the request down.
    pub fn prepare_http_request(
        &self,
        circuit_id: &String,
        url: &str,
        method: &str,
        headers_json: &str,
        body: &str,
    ) -> (r: Result<HttpPlan, BridgeError>)
        requires
            self.wf(),
        ensures
            !self.circuit_map().contains_key(circuit_id@) ==> r == Err::<HttpPlan, BridgeError>(
                BridgeError::NotFound,
            ),
            self.circuit_map().contains_key(circuit_id@) && method_of(method@) is None ==> r
                == Err::<HttpPlan, BridgeError>(BridgeError::UnsupportedMethod),
            self.circuit_map().contains_key(circuit_id@) && method_of(method@) is Some
                && json_object_fields_of(headers_json@) is None ==> r == Err::<
                HttpPlan,
                BridgeError,
            >(BridgeError::RequestFailed),
            self.circuit_map().contains_key(circuit_id@) && method_of(method@) is Some
                && json_object_fields_of(headers_json@) is Some ==> (r matches Ok(plan)
                && Some(plan.method) == method_of(method@) && plan.url@ == url@ && pair_views(
                plan.headers@,
            ) == string_fields(json_object_fields_of(headers_json@).unwrap()) && (body@.len() == 0
                ==> plan.body is None) && (body@.len() > 0 ==> (plan.body matches Some(b) && b@
                == body@))),
    {
        if self.get_tor_client_by_circuit(circuit_id).is_none() {
            return Err(BridgeError::NotFound);
        }
        let method_verb = match parse_method(method) {
            Some(m) => m,
            None => {
                return Err(BridgeError::UnsupportedMethod);
            },
        };
        let fields = match parse_json_object(headers_json) {
            Some(f) => f,
            None => {
                return Err(BridgeError::RequestFailed);
            },
        };
        let headers = keep_string_values(fields);
        let plan_body = if body.is_empty() {
            None
        } else {
            Some(String::from_str(body))
        };
        Ok(
            HttpPlan {
                method: method_verb,
                url: String::from_str(url),
                headers,
                body: plan_body,
            },
        )
    }
}

/// The JSON envelope reported for an executed request: its status, the
/// response headers in the given order, and the response body.
pub open spec fn http_response_json(
    status: nat,
    headers: Seq<(Seq<char>, Seq<char>)>,
    body: Seq<char>,
) -> Seq<char> {
    "{\"status\":"@ + decimal_digits(status) + ",\"headers\":"@ + json_object(headers)
        + ",\"body\":"@ + json_string(body) + "}"@
}

/// Frame an executed request's outcome as the JSON envelope.
pub fn build_http_response(status: u16, headers: &Vec<(String, String)>, body: &str) -> (r: String)
    ensures
        r@ == http_response_json(status as nat, pair_views(headers@), body@),
{
    let mut out = String::new();
    out.append("{\"status\":");
    let digits = format_u64(status as u64);
    out.append(digits.as_str());
    out.append(",\"headers\":");
    append_json_object(&mut out, headers);
    out.append(",\"body\":");
    append_json_string(&mut out, body);
    out.append("}");
    proof {
        assert(out@ =~= http_response_json(status as nat, pair_views(headers@), body@));
    }
    out
}

} // verus!
