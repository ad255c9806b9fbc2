//! The delegate invoker: resolve a driver by name, build the call payload,
//! and interpret the reply.
//!
//! Wire shape of a call: `[4-byte selector][SCALE-encoded positional args]`.
//! Wire shape of a reply: a success/failure discriminant for the dispatch
//! itself, then the SCALE-encoded payload. A reply has two failure tiers:
//! dispatch failure or a malformed buffer is an infrastructure error
//! (a deployment or version mismatch, unrecoverable for this invocation),
//! while a typed error returned by the target's own logic is an ordinary
//! recoverable result.

use vstd::prelude::*;

verus! {

use vstd::utf8::encode_utf8;
use vstd::string::StringExecFns;
use crate::codec::{
    CodecError, Output, ValueView, spec_encode_str, spec_encode_str_vec, spec_decode_value,
    spec_decode_str, str_views, encode_str, encode_str_vec, decode_value, decode_str,
};
use crate::registry::{AccountId, DriverRegistry, spec_resolve};

/// A 4-byte discriminator routing a delegate call to one exposed operation
/// on the target.
#[derive(Debug, Clone, Copy, PartialEq, Eq)]
pub struct Selector {
    pub bytes: [u8; 4],
}

/// The big-endian bytes of a selector literal such as `0x49bfcd24`.
pub open spec fn spec_selector_bytes(x: nat) -> Seq<u8> {
    seq![
        ((x / 16777216) % 256) as u8,
        ((x / 65536) % 256) as u8,
        ((x / 256) % 256) as u8,
        (x % 256) as u8,
    ]
}

impl Selector {
    pub fn new(bytes: [u8; 4]) -> (r: Selector)
        ensures
            r.bytes == bytes,
    {
        Selector { bytes }
    }

    /// The selector written as a `u32` literal, stored big-endian.
    pub fn from_u32(x: u32) -> (r: Selector)
        ensures
            r.bytes@ == spec_selector_bytes(x as nat),
    {
        let b0: u8 = ((x / 16777216) % 256) as u8;
        let b1: u8 = ((x / 65536) % 256) as u8;
        let b2: u8 = ((x / 256) % 256) as u8;
        let b3: u8 = (x % 256) as u8;
        let r = Selector { bytes: [b0, b1, b2, b3] };
        assert(r.bytes@ =~= spec_selector_bytes(x as nat));
        r
    }
}

/// How a delegate invocation can fail.
#[derive(Debug, PartialEq, Eq, Clone)]
pub enum InvokeError {
    /// No driver is registered under the requested name: the capability is
    /// unavailable. The caller degrades gracefully; only the delegate path
    /// is reported unavailable.
    DriverUnavailable,
    /// The reply buffer is not a well-formed encoding: an infrastructure
    /// error signalling a codec or version mismatch.
    MalformedReply(CodecError),
    /// The dispatch itself failed before the target's logic ran (the
    /// target could not read the input): an infrastructure error.
    TargetAborted,
    /// The target's own logic returned this typed error: an ordinary
    /// recoverable result, surfaced unchanged to the caller.
    ScriptError(String),
}

/// The infrastructure tier of the two-tier failure taxonomy: these signal
/// a deployment inconsistency and abort the current invocation, while
/// `ScriptError` is an ordinary result.
pub open spec fn is_infrastructure(e: InvokeError) -> bool {
    match e {
        InvokeError::ScriptError(_) => false,
        _ => true,
    }
}

/// The full payload of a delegate call evaluating `script` on `args`:
/// selector, then the two SCALE-encoded positional arguments.
pub open spec fn spec_invoke_payload(sel: Seq<u8>, script: Seq<char>, args: Seq<Seq<char>>) -> Seq<
    u8,
> {
    sel + spec_encode_str(script) + spec_encode_str_vec(args)
}

/// Whether the positional arguments fit the wire format's length limits.
pub open spec fn args_encodable(script: Seq<char>, args: Seq<Seq<char>>) -> bool {
    &&& encode_utf8(script).len() <= u32::MAX
    &&& args.len() <= u32::MAX
    &&& forall|i: int| 0 <= i < args.len() ==> encode_utf8(#[trigger] args[i]).len() <= u32::MAX
}

/// Build the payload of a delegate call: `[selector][script][args]`.
pub fn encode_invoke_payload(selector: &Selector, script: &str, args: &Vec<String>) -> (r: Vec<u8>)
    requires
        args_encodable(script@, str_views(args@)),
    ensures
        r@ == spec_invoke_payload(selector.bytes@, script@, str_views(args@)),
{
    let mut out: Vec<u8> = Vec::new();
    out.push(selector.bytes[0]);
    out.push(selector.bytes[1]);
    out.push(selector.bytes[2]);
    out.push(selector.bytes[3]);
    assert(out@ =~= selector.bytes@);
    encode_str(script, &mut out);
    assert(forall|i: int|
        0 <= i < args@.len() ==> encode_utf8(#[trigger] args@[i]@).len() <= u32::MAX) by {
        assert(forall|i: int| 0 <= i < args@.len() ==> str_views(args@)[i] == #[trigger] args@[i]@);
    }
    encode_str_vec(args, &mut out);
    assert(out@ =~= spec_invoke_payload(selector.bytes@, script@, str_views(args@)));
    out
}

/// What a reply buffer means, before it is folded into a caller's result.
pub enum ReplyOutcome {
    /// The target ran and returned this value.
    Value(ValueView),
    /// The target ran and returned this typed error.
    Script(Seq<char>),
    /// The dispatch failed before the target's logic ran.
    Aborted,
    /// The buffer is not a well-formed reply.
    Malformed,
}

/// Strict interpretation of a reply buffer, byte for byte:
/// `[0x00][0x00][value]` is success, `[0x00][0x01][string]` is the
/// target's typed error, `[0x01][0x01]` is a failed dispatch, and
/// anything else - unknown discriminant, non-canonical payload or
/// trailing bytes - is malformed.
pub open spec fn spec_reply_outcome(bytes: Seq<u8>) -> ReplyOutcome {
    if bytes.len() < 2 {
        ReplyOutcome::Malformed
    } else if bytes[0] == 0 && bytes[1] == 0 {
        match spec_decode_value(bytes.skip(2)) {
            Some((v, c)) => if 2 + c == bytes.len() {
                ReplyOutcome::Value(v)
            } else {
                ReplyOutcome::Malformed
            },
            None => ReplyOutcome::Malformed,
        }
    } else if bytes[0] == 0 && bytes[1] == 1 {
        match spec_decode_str(bytes.skip(2)) {
            Some((s, c)) => if 2 + c == bytes.len() {
                ReplyOutcome::Script(s)
            } else {
                ReplyOutcome::Malformed
            },
            None => ReplyOutcome::Malformed,
        }
    } else if bytes[0] == 1 && bytes[1] == 1 && bytes.len() == 2 {
        ReplyOutcome::Aborted
    } else {
        ReplyOutcome::Malformed
    }
}

/// A faithful target's reply always reaches its caller intact: a success
/// reply carrying any encodable value decodes back to exactly that value,
/// and a typed-error reply carrying any encodable message surfaces
/// exactly that message.
pub proof fn lemma_reply_round_trip(v: ValueView, s: Seq<char>)
    requires
        crate::codec::value_encodable(v),
        encode_utf8(s).len() <= u32::MAX,
    ensures
        spec_reply_outcome(seq![0u8, 0u8] + crate::codec::spec_encode_value(v))
            == ReplyOutcome::Value(v),
        spec_reply_outcome(seq![0u8, 1u8] + spec_encode_str(s)) == ReplyOutcome::Script(s),
{
    let enc = crate::codec::spec_encode_value(v);
    let ok_reply = seq![0u8, 0u8] + enc;
    assert(ok_reply.skip(2) =~= enc + Seq::<u8>::empty());
    crate::codec::lemma_value_round_trip(v, Seq::empty());
    assert(ok_reply.len() == 2 + enc.len());

    let senc = spec_encode_str(s);
    let err_reply = seq![0u8, 1u8] + senc;
    assert(err_reply.skip(2) =~= senc + Seq::<u8>::empty());
    crate::codec::lemma_str_round_trip(s, Seq::empty());
    assert(err_reply.len() == 2 + senc.len());
}

/// Decode a reply buffer into the caller's result, keeping the two failure
/// tiers apart.
pub fn interpret_reply(reply: &Vec<u8>) -> (r: Result<Output, InvokeError>)
    ensures
        match r {
            Ok(v) => spec_reply_outcome(reply@) == ReplyOutcome::Value(v@),
            Err(InvokeError::ScriptError(s)) => spec_reply_outcome(reply@)
                == ReplyOutcome::Script(s@),
            Err(InvokeError::TargetAborted) => spec_reply_outcome(reply@) == ReplyOutcome::Aborted,
            Err(InvokeError::MalformedReply(_)) => spec_reply_outcome(reply@)
                == ReplyOutcome::Malformed,
            Err(InvokeError::DriverUnavailable) => false,
        },
        r is Err ==> (is_infrastructure(r->Err_0) <==> !(spec_reply_outcome(reply@) is Script)),
{
    if reply.len() < 2 {
        return Err(InvokeError::MalformedReply(CodecError::Truncated));
    }
    let d0: u8 = reply[0];
    let d1: u8 = reply[1];
    if d0 == 0 && d1 == 0 {
        match decode_value(reply, 2) {
            Ok((v, p)) => {
                if p == reply.len() {
                    Ok(v)
                } else {
                    Err(InvokeError::MalformedReply(CodecError::Truncated))
                }
            },
            Err(e) => Err(InvokeError::MalformedReply(e)),
        }
    } else if d0 == 0 && d1 == 1 {
        match decode_str(reply, 2) {
            Ok((s, p)) => {
                if p == reply.len() {
                    Err(InvokeError::ScriptError(s))
                } else {
                    Err(InvokeError::MalformedReply(CodecError::Truncated))
                }
            },
            Err(e) => Err(InvokeError::MalformedReply(e)),
        }
    } else if d0 == 1 && d1 == 1 && reply.len() == 2 {
        Err(InvokeError::TargetAborted)
    } else {
        Err(InvokeError::MalformedReply(CodecError::UnknownTag))
    }
}

/// Resolve the named driver and build the call payload. `None` from the
/// registry becomes `DriverUnavailable` and nothing else fails: the
/// caller's own logic never aborts on a missing driver.
pub fn prepare_invoke(
    registry: &DriverRegistry,
    name: &String,
    selector: &Selector,
    script: &str,
    args: &Vec<String>,
) -> (r: Result<(AccountId, Vec<u8>), InvokeError>)
    requires
        args_encodable(script@, str_views(args@)),
    ensures
        match r {
            Ok((target, payload)) => {
                &&& spec_resolve(registry.entries@, name@) == Some(target)
                &&& payload@ == spec_invoke_payload(selector.bytes@, script@, str_views(args@))
            },
            Err(e) => {
                &&& e == InvokeError::DriverUnavailable
                &&& spec_resolve(registry.entries@, name@) is None
            },
        },
{
    let target = match registry.resolve(name) {
        Some(t) => t,
        None => {
            return Err(InvokeError::DriverUnavailable);
        },
    };
    let payload = encode_invoke_payload(selector, script, args);
    Ok((target, payload))
}

/// The selector of the script-evaluation entry point on the delegate.
pub open spec fn eval_selector() -> Seq<u8> {
    spec_selector_bytes(0x49bfcd24)
}

/// Prepare a script evaluation on the cluster's script driver: resolve
/// the driver registered as "JsDelegate" and build the payload for its
/// evaluation entry point.
pub fn prepare_eval(registry: &DriverRegistry, script: &str, args: &Vec<String>) -> (r: Result<
    (AccountId, Vec<u8>),
    InvokeError,
>)
    requires
        args_encodable(script@, str_views(args@)),
    ensures
        match r {
            Ok((target, payload)) => {
                &&& spec_resolve(registry.entries@, "JsDelegate"@) == Some(target)
                &&& payload@ == spec_invoke_payload(eval_selector(), script@, str_views(args@))
            },
            Err(e) => {
                &&& e == InvokeError::DriverUnavailable
                &&& spec_resolve(registry.entries@, "JsDelegate"@) is None
            },
        },
{
    let selector = Selector::from_u32(0x49bfcd24);
    let name = String::from_str("JsDelegate");
    prepare_invoke(registry, &name, &selector, script, args)
}

/// Fold a finished evaluation into the value a caller observes: the
/// returned value on success, `Undefined` on any error.
pub fn value_or_undefined(outcome: Result<Output, InvokeError>) -> (r: Output)
    ensures
        match outcome {
            Ok(v) => r == v,
            Err(_) => r == Output::Undefined,
        },
{
    match outcome {
        Ok(v) => v,
        Err(_) => Output::Undefined,
    }
}

} // verus!
