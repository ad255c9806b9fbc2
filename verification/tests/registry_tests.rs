use pink_core::registry::{AccountId, ConvertTo, DriverRegistry};

#[test]
fn resolve_misses_on_empty_registry() {
    let reg = DriverRegistry::new();
    assert!(reg.resolve(&"nope".to_string()).is_none());
}

#[test]
fn resolve_misses_unknown_name() {
    let mut reg = DriverRegistry::new();
    reg.register("JsDelegate".to_string(), AccountId::new([1u8; 32]));
    assert!(reg.resolve(&"nope".to_string()).is_none());
}

#[test]
fn resolve_finds_registered_driver() {
    let mut reg = DriverRegistry::new();
    reg.register("JsDelegate".to_string(), AccountId::new([1u8; 32]));
    reg.register("TagStack".to_string(), AccountId::new([2u8; 32]));
    let found = reg.resolve(&"TagStack".to_string()).unwrap();
    assert_eq!(found.bytes, [2u8; 32]);
    let found = reg.resolve(&"JsDelegate".to_string()).unwrap();
    assert_eq!(found.bytes, [1u8; 32]);
}

#[test]
fn later_binding_shadows_earlier() {
    let mut reg = DriverRegistry::new();
    reg.register("JsDelegate".to_string(), AccountId::new([1u8; 32]));
    reg.register("JsDelegate".to_string(), AccountId::new([9u8; 32]));
    let found = reg.resolve(&"JsDelegate".to_string()).unwrap();
    assert_eq!(found.bytes, [9u8; 32]);
}

#[test]
fn account_converts_to_raw_bytes() {
    let account = AccountId::new([7u8; 32]);
    let raw: [u8; 32] = account.convert_to();
    assert_eq!(raw, [7u8; 32]);
}
