//! Tests that run the library against a mocked host: each chain
//! extension the bridge relies on is replaced by a deterministic stand-in
//! registered through the extension's own mock helpers.

use pink_core::bridge::get_randomness;
use pink_core::logging::{enter_span, log, LogContext, ResultExt};
use pink_core::bridge::{HttpRequest as BridgeRequest};
use pink_core::http_proxy::HttpProxy;
use pink_core::log_test::LogTest;
use pink_core::logtest::Logtest;
use pink_core::phat_hello::{Error as HelloError, PhatHello};
use pink_core::signing::Signing;
use pink_core::use_cache::UseCache;
use pink_extension::chain_extension::{mock, HttpResponse};
use std::cell::RefCell;
use std::collections::HashMap;
use std::rc::Rc;

fn mock_crypto() {
    mock::mock_derive_sr25519_key(|salt| {
        let mut key = salt.to_vec();
        key.push(0xAA);
        key
    });
    mock::mock_get_public_key(|_sigtype, key| {
        let mut pubkey = vec![0xBBu8];
        pubkey.extend_from_slice(key);
        pubkey
    });
    mock::mock_sign(|_sigtype, key, message| {
        let mut signature = key.to_vec();
        signature.push(0xCC);
        signature.extend_from_slice(message);
        signature
    });
    mock::mock_verify(|_sigtype, pubkey, message, signature| {
        let mut expected = pubkey[1..].to_vec();
        expected.push(0xCC);
        expected.extend_from_slice(message);
        signature == expected.as_slice()
    });
}

fn mock_cache() {
    let storage: Rc<RefCell<HashMap<Vec<u8>, Vec<u8>>>> = Rc::new(RefCell::new(HashMap::new()));
    {
        let storage = storage.clone();
        mock::mock_cache_set(move |k, v| {
            storage.borrow_mut().insert(k.to_vec(), v.to_vec());
            Ok(())
        });
    }
    {
        let storage = storage.clone();
        mock::mock_cache_get(move |k| storage.borrow().get(k).map(|v| v.to_vec()));
    }
    {
        let storage = storage.clone();
        mock::mock_cache_remove(move |k| storage.borrow_mut().remove(k).map(|v| v.to_vec()));
    }
}

#[test]
fn it_works() {
    mock_crypto();
    let contract = Signing::default();
    let message = String::from("hello world");
    let sign_message = contract.sign(message.clone());
    let verify_signature = contract.verify(message.clone(), sign_message);
    assert!(verify_signature);
    contract.test(message);
}

#[test]
fn signing_rejects_wrong_message() {
    mock_crypto();
    let contract = Signing::default();
    let signature = contract.sign("hello world".to_string());
    assert!(!contract.verify("Fake".to_string(), signature));
}

#[test]
fn randomness_echoes_salt_and_is_reproducible() {
    mock_crypto();
    let salt = vec![1u8, 2u8, 3u8];
    let (echo, randomness) = get_randomness(&salt);
    assert_eq!(echo, salt);
    // The derivation is salted under the "vrf:" prefix.
    let mut expected = b"vrf:".to_vec();
    expected.extend_from_slice(&salt);
    expected.push(0xAA);
    assert_eq!(randomness, expected);
    let (_, again) = get_randomness(&salt);
    assert_eq!(randomness, again);
}

#[test]
fn cache_module_round_trip() {
    mock_cache();
    let contract = UseCache::default();
    assert!(contract.test());
    assert!(contract.set_key_value(b"hashwarlock was here".to_vec()).is_ok());
    assert_eq!(contract.get_key_value(), Some(b"hashwarlock was here".to_vec()));
    assert!(contract.test());
    // The probe ends by removing the key, so the stored value is gone.
    assert_eq!(contract.get_key_value(), None);
}

#[test]
fn logged_flipper_reports_operations() {
    let lines: Rc<RefCell<Vec<(u8, String)>>> = Rc::new(RefCell::new(Vec::new()));
    {
        let lines = lines.clone();
        mock::mock_log(move |level, message| {
            lines.borrow_mut().push((level, message.to_string()));
        });
    }
    let mut contract = LogTest::default();
    contract.flip();
    assert!(contract.get());
    assert_eq!(
        lines.borrow().as_slice(),
        &[(3u8, "Flip".to_string()), (4u8, "Get".to_string())]
    );
}

#[test]
fn older_logged_flipper_behaves_alike() {
    mock::mock_log(|_level, _message| ());
    let mut contract = Logtest::new(true);
    assert!(contract.get());
    contract.flip();
    assert!(!contract.get());
}

#[test]
fn proxy_passes_request_through() {
    mock::mock_http_request(|request| {
        if request.method == "POST" && request.url == "https://example.com" {
            HttpResponse::ok(request.body)
        } else {
            HttpResponse::not_found()
        }
    });
    let proxy = HttpProxy::new();
    let response = proxy.request(BridgeRequest {
        method: "POST".to_string(),
        url: "https://example.com".to_string(),
        headers: Vec::new(),
        body: b"payload".to_vec(),
    });
    assert_eq!(response.status_code, 200);
    assert_eq!(response.body, b"payload".to_vec());
}

#[test]
fn log_carries_tag_prefix_to_sink() {
    let lines: Rc<RefCell<Vec<(u8, String)>>> = Rc::new(RefCell::new(Vec::new()));
    {
        let lines = lines.clone();
        mock::mock_log(move |level, message| {
            lines.borrow_mut().push((level, message.to_string()));
        });
    }
    let mut ctx = LogContext::new(false, true);
    let span = enter_span(&mut ctx, "eval");
    log(&ctx, 3, "starting");
    let looked_up: Result<u32, u32> = Err(7);
    let back = looked_up.log_err(&ctx, "lookup failed");
    assert_eq!(back, Err(7));
    let fine: Result<u32, u32> = Ok(1);
    assert_eq!(fine.log_err(&ctx, "never logged"), Ok(1));
    span.release(&mut ctx);
    assert_eq!(
        lines.borrow().as_slice(),
        &[
            (3u8, "[eval]: starting".to_string()),
            (1u8, "[eval]: lookup failed".to_string()),
        ]
    );
}

#[test]
fn balance_query_end_to_end() {
    mock::mock_http_request(|request| {
        if request.url.starts_with("https://api.etherscan.io/api") {
            HttpResponse::ok(
                b"{\"status\":\"1\",\"message\":\"OK\",\"result\":\"123456\"}".to_vec(),
            )
        } else {
            HttpResponse::not_found()
        }
    });
    let contract = PhatHello::new();
    let account = String::from("0xD0fE316B9f01A3b5fd6790F88C2D53739F80B464");
    assert_eq!(contract.get_eth_balance(account), Ok("123456".to_string()));
    assert_eq!(
        contract.get_eth_balance("bogus".to_string()),
        Err(HelloError::InvalidEthAddress)
    );
}

#[test]
fn balance_query_failed_fetch() {
    mock::mock_http_request(|_request| HttpResponse::not_found());
    let contract = PhatHello::new();
    let account = String::from("0xD0fE316B9f01A3b5fd6790F88C2D53739F80B464");
    assert_eq!(
        contract.get_eth_balance(account),
        Err(HelloError::HttpRequestFailed)
    );
}
