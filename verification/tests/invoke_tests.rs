use pink_core::codec::{encode_value, CodecError, Output};
use pink_core::invoke::{
    encode_invoke_payload, interpret_reply, prepare_eval, prepare_invoke, InvokeError, Selector,
};
use pink_core::registry::{AccountId, DriverRegistry};
use parity_scale_codec::Encode;

fn eval_selector() -> Selector {
    Selector::from_u32(0x49bfcd24)
}

#[test]
fn selector_is_big_endian() {
    assert_eq!(eval_selector().bytes, [0x49u8, 0xbfu8, 0xcdu8, 0x24u8]);
}

#[test]
fn payload_is_selector_then_scale_args() {
    let script = "console.log('hi')";
    let args = vec!["test".to_string()];
    let payload = encode_invoke_payload(&eval_selector(), script, &args);
    let mut reference = vec![0x49u8, 0xbfu8, 0xcdu8, 0x24u8];
    reference.extend(script.to_string().encode());
    reference.extend(args.encode());
    assert_eq!(payload, reference);
}

#[test]
fn missing_driver_reports_unavailable_without_aborting() {
    let reg = DriverRegistry::new();
    let r = prepare_invoke(
        &reg,
        &"nope".to_string(),
        &eval_selector(),
        "1+1",
        &Vec::new(),
    );
    assert_eq!(r, Err(InvokeError::DriverUnavailable));
}

#[test]
fn end_to_end_script_eval() {
    // Register the driver, build the call, and interpret the reply the
    // target would send for a script returning the string "ok".
    let mut reg = DriverRegistry::new();
    let address = AccountId::new([5u8; 32]);
    reg.register("ScriptEval".to_string(), address);
    let args = vec!["test".to_string()];
    let (target, payload) = prepare_invoke(
        &reg,
        &"ScriptEval".to_string(),
        &eval_selector(),
        "script",
        &args,
    )
    .unwrap();
    assert_eq!(target.bytes, [5u8; 32]);
    assert_eq!(&payload[0..4], &[0x49u8, 0xbfu8, 0xcdu8, 0x24u8]);

    let mut reply = vec![0u8, 0u8];
    reply.extend(encode_value(&Output::String("ok".to_string())));
    let observed = interpret_reply(&reply).unwrap();
    assert_eq!(observed, Output::String("ok".to_string()));
}

#[test]
fn eval_preparation_uses_the_script_driver() {
    let mut reg = DriverRegistry::new();
    assert_eq!(
        prepare_eval(&reg, "1+1", &Vec::new()),
        Err(InvokeError::DriverUnavailable)
    );
    reg.register("JsDelegate".to_string(), AccountId::new([8u8; 32]));
    let args = vec!["test".to_string()];
    let (target, payload) = prepare_eval(&reg, "1+1", &args).unwrap();
    assert_eq!(target.bytes, [8u8; 32]);
    assert_eq!(
        payload,
        encode_invoke_payload(&eval_selector(), "1+1", &args)
    );
}

#[test]
fn script_error_is_surfaced_as_recoverable() {
    let mut reply = vec![0u8, 1u8];
    reply.extend("boom".to_string().encode());
    assert_eq!(
        interpret_reply(&reply),
        Err(InvokeError::ScriptError("boom".to_string()))
    );
}

#[test]
fn dispatch_failure_is_infrastructure() {
    assert_eq!(interpret_reply(&vec![1u8, 1u8]), Err(InvokeError::TargetAborted));
}

#[test]
fn malformed_replies_are_rejected() {
    assert_eq!(
        interpret_reply(&Vec::new()),
        Err(InvokeError::MalformedReply(CodecError::Truncated))
    );
    // Unknown outer discriminant.
    assert_eq!(
        interpret_reply(&vec![7u8, 0u8]),
        Err(InvokeError::MalformedReply(CodecError::UnknownTag))
    );
    // Success header followed by an unknown value tag.
    assert_eq!(
        interpret_reply(&vec![0u8, 0u8, 9u8]),
        Err(InvokeError::MalformedReply(CodecError::UnknownTag))
    );
    // Trailing bytes after a well-formed value.
    let mut reply = vec![0u8, 0u8];
    reply.extend(encode_value(&Output::Undefined));
    reply.push(0u8);
    assert_eq!(
        interpret_reply(&reply),
        Err(InvokeError::MalformedReply(CodecError::Truncated))
    );
}
