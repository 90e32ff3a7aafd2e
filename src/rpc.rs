use vstd::prelude::*;
use crate::text::{decimal, find_char, find_char_exec, push_decimal, views};

verus! {

/// The standard, padded base64 encoding of the UTF-8 bytes of `s`.
pub uninterp spec fn base64_of(s: Seq<char>) -> Seq<char>;

/// Relies on `base64::encode`: the standard, padded base64 encoding of the string's bytes,
/// which depends on those bytes alone. It panics only when the encoded length overflows
/// `usize`, which the bound on the input rules out.
#[verifier::external_body]
fn base64_encode(s: &str) -> (r: String)
    requires
        s@.len() <= 0x1000_0000_0000,
    ensures
        r@ == base64_of(s@),
{
    base64::encode(s)
}

/// Whether `url` is `user:password@host:port`: exactly one '@'.
pub open spec fn is_rpc_url(url: Seq<char>) -> bool {
    let at = find_char(url, '@', 0);
    at < url.len() && find_char(url, '@', at + 1) == url.len()
}

/// `"` + `s` + `"`.
pub open spec fn quoted(s: Seq<char>) -> Seq<char> {
    seq!['"'] + s + seq!['"']
}

/// `s` with `"` on both sides: a JSON string parameter for a daemon call.
pub fn quote(s: &str) -> (r: String)
    ensures
        r@ == quoted(s@),
{
    let mut r = String::from_str("\"");
    r.append(s);
    r.append("\"");
    proof {
        reveal_strlit("\"");
    }
    r
}

/// The parameters joined with ','.
pub open spec fn joined(params: Seq<Seq<char>>) -> Seq<char>
    decreases params.len(),
{
    if params.len() == 0 {
        Seq::empty()
    } else if params.len() == 1 {
        params[0]
    } else {
        joined(params.drop_last()) + seq![','] + params.last()
    }
}

/// The JSON-RPC request for `method` with the pre-quoted `params` and request number `id`.
pub open spec fn request_text(method: Seq<char>, params: Seq<Seq<char>>, id: nat) -> Seq<char> {
    "{\"method\":\""@ + method + "\",\"params\":["@ + joined(params) + "],\"id\":"@ + decimal(id)
        + "}"@
}

/// The parts of a chain daemon endpoint that every call needs.
pub struct RPCClient {
    /// `Basic ` and the base64 of `user:password`.
    pub basic_auth: String,
    /// `http://host:port`.
    pub uri: String,
    /// The number of the next request.
    pub next_id: u64,
}

impl RPCClient {
    /// The endpoint of `rpc_url` (`user:password@host:port`), or `None` when it does not hold
    /// exactly one '@'.
    pub fn new(rpc_url: &str) -> (r: Option<RPCClient>)
        requires
            rpc_url@.len() <= 0x1000_0000_0000,
        ensures
            r is Some <==> is_rpc_url(rpc_url@),
            r is Some ==> ({
                let at = find_char(rpc_url@, '@', 0);
                &&& r->0.basic_auth@ == "Basic "@ + base64_of(rpc_url@.subrange(0, at))
                &&& r->0.uri@ == "http://"@ + rpc_url@.subrange(at + 1, rpc_url@.len() as int)
                &&& r->0.next_id == 0
            }),
    {
        let len = rpc_url.unicode_len();
        let at = find_char_exec(rpc_url, len, '@', 0);
        if at >= len {
            return None;
        }
        let after = find_char_exec(rpc_url, len, '@', at + 1);
        if after != len {
            return None;
        }
        let user_auth = rpc_url.substring_char(0, at);
        let host_port = rpc_url.substring_char(at + 1, len);
        let mut basic_auth = String::from_str("Basic ");
        let encoded = base64_encode(user_auth);
        basic_auth.append(encoded.as_str());
        let mut uri = String::from_str("http://");
        uri.append(host_port);
        Some(RPCClient { basic_auth, uri, next_id: 0 })
    }

    /// The body of the next request, which takes the next request number.
    pub fn request_body(&mut self, method: &str, params: &Vec<String>) -> (r: String)
        ensures
            r@ == request_text(method@, views(params@), old(self).next_id as nat),
            final(self).next_id == old(self).next_id.wrapping_add(1),
            final(self).basic_auth == old(self).basic_auth,
            final(self).uri == old(self).uri,
    {
        let mut body = String::from_str("{\"method\":\"");
        body.append(method);
        body.append("\",\"params\":[");
        let mut i: usize = 0;
        while i < params.len()
            invariant
                i <= params@.len(),
                body@ == "{\"method\":\""@ + method@ + "\",\"params\":["@
                    + joined(views(params@).subrange(0, i as int)),
            decreases params.len() - i,
        {
            proof {
                let vs = views(params@);
                assert(vs.subrange(0, i + 1).drop_last() =~= vs.subrange(0, i as int));
                if i == 0 {
                    assert(vs.subrange(0, 0) =~= Seq::<Seq<char>>::empty());
                    assert(vs.subrange(0, 1) =~= seq![params@[0]@]);
                }
            }
            if i > 0 {
                body.append(",");
                proof {
                    reveal_strlit(",");
                }
            }
            body.append(params[i].as_str());
            proof {
                let vs = views(params@);
                assert(vs.subrange(0, i + 1).last() == params@[i as int]@);
            }
            i = i + 1;
        }
        proof {
            assert(views(params@).subrange(0, params@.len() as int) =~= views(params@));
        }
        body.append("],\"id\":");
        push_decimal(&mut body, self.next_id);
        body.append("}");
        self.next_id = self.next_id.wrapping_add(1);
        body
    }
}

/// The "error" field of a reply object.
#[derive(Clone, Copy, Debug, PartialEq, Eq, Structural)]
pub enum ErrorField {
    Missing,
    Null,
    /// Present and not null: the daemon reports a failure.
    Reported,
}

/// The shape of a daemon reply body, as the JSON parser saw it.
#[derive(Clone, Copy, Debug, PartialEq, Eq, Structural)]
pub enum ReplyBody {
    /// Not JSON.
    Unparsable,
    /// JSON, but not an object.
    NotAnObject,
    /// An object, with its "error" field and whether it has a "result" field.
    Object { error: ErrorField, has_result: bool },
}

/// What a daemon call came to.
#[derive(Clone, Copy, Debug, PartialEq, Eq, Structural)]
pub enum ReplyVerdict {
    /// The call failed: a status outside 2xx, or an error in the reply.
    Failed,
    /// The reply could not be read, or lacks a field it must have: the call yields JSON null.
    NullResult,
    /// The call yields the reply's "result" field.
    UseResult,
}

/// The verdict on a reply with HTTP status `status` and body `body`: a status outside 2xx or
/// a reported "error" fails the call; a well-formed reply (an object with a null "error"
/// and a "result") yields its result; anything else yields null.
pub open spec fn reply_verdict(status: u16, body: ReplyBody) -> ReplyVerdict {
    if status < 200 || status > 299 {
        ReplyVerdict::Failed
    } else {
        match body {
            ReplyBody::Object { error, has_result } =>
                if error is Reported {
                    ReplyVerdict::Failed
                } else if error is Null && has_result {
                    ReplyVerdict::UseResult
                } else {
                    ReplyVerdict::NullResult
                },
            _ => ReplyVerdict::NullResult,
        }
    }
}

/// Judges a daemon reply from its HTTP status and the shape of its body.
pub fn judge_reply(status: u16, body: ReplyBody) -> (r: ReplyVerdict)
    ensures
        r == reply_verdict(status, body),
{
    if status < 200 || status > 299 {
        return ReplyVerdict::Failed;
    }
    match body {
        ReplyBody::Object { error, has_result } => {
            match error {
                ErrorField::Reported => ReplyVerdict::Failed,
                ErrorField::Null => {
                    if has_result { ReplyVerdict::UseResult } else { ReplyVerdict::NullResult }
                },
                ErrorField::Missing => ReplyVerdict::NullResult,
            }
        },
        _ => ReplyVerdict::NullResult,
    }
}

} // verus!
