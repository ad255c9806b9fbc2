use pink_core::adv_cases::{AdvCases, Error, Error2, Role};
use pink_core::codec::Output;
use pink_core::flipper::Flipper;
use pink_core::phat_hello::{
    check_eth_account, interpret_balance_response, parse_etherscan, Error as HelloError, PhatHello,
};
use pink_core::qjs_test::QjsTest;

#[test]
fn flipper_flips() {
    let mut flipper = Flipper::default();
    assert!(!flipper.get());
    flipper.flip();
    assert!(flipper.get());
    flipper.flip();
    assert!(!flipper.get());
    let seeded = Flipper::new(true);
    assert!(seeded.get());
}

#[test]
fn adv_cases_users() {
    let mut cases = AdvCases::default();
    assert_eq!(cases.get_user(0), None);
    assert_eq!(cases.get_user_by_result(0), Err(Error::NotFound));
    assert_eq!(cases.get_lazy_user(), None);
    let user = cases.get_sample_user(77);
    assert_eq!(user.salery, 77);
    assert_eq!(user.name, "Simple user".to_string());
    assert_eq!(user.role, Role::User);
    cases.add(user);
    let stored = cases.get_user(0).unwrap();
    assert_eq!(stored.salery, 77);
    assert_eq!(cases.get_user(1), None);
    let admin = cases.get_sample_admin(3);
    assert_eq!(admin.role, Role::Admin(3));
    assert_eq!(admin.name, "Nice admin".to_string());
}

#[test]
fn adv_cases_plain_values() {
    let cases = AdvCases::default();
    assert_eq!(cases.get_integers(), (1u8, 2u128, -3i8, 4i128));
    assert_eq!(cases.get_array("ignored".to_string()), vec![5u64, 6u64, 7u64, 8u64]);
    assert_eq!(cases.get_tuple("echo".to_string()), (10u64, "echo".to_string()));
    assert_eq!(cases.sample(9), Err(Error2::Sample(9)));
    cases.handle_req();
}

#[test]
fn qjs_run_collapses_errors_to_undefined() {
    let qjs = QjsTest::default();
    let ok = qjs.run(Ok(Output::String("ok".to_string())));
    assert_eq!(ok, Output::String("ok".to_string()));
    let err = qjs.run(Err("no driver".to_string()));
    assert_eq!(err, Output::Undefined);
}

#[test]
fn eth_account_screen() {
    let hello = PhatHello::new();
    assert!(hello.demo_field);
    assert!(check_eth_account(&b"0xD0fE316B9f01A3b5fd6790F88C2D53739F80B464".to_vec()));
    // 42 bytes long without the prefix is still acceptable.
    assert!(check_eth_account(&vec![b'a'; 42]));
    assert!(!check_eth_account(&b"hello".to_vec()));
}

#[test]
fn etherscan_reply_parses() {
    let body = b"{\"status\":\"1\",\"message\":\"OK\",\"result\":\"123456\"}".to_vec();
    let resp = parse_etherscan(&body).unwrap();
    assert_eq!(resp.status, "1".to_string());
    assert_eq!(resp.message, "OK".to_string());
    assert_eq!(resp.result, "123456".to_string());
}

#[test]
fn etherscan_reply_tolerates_whitespace_and_order() {
    let spaced = b" {\n  \"message\" : \"OK\" ,\t\"result\": \"77\",\r\n  \"status\": \"1\"\n} ".to_vec();
    let resp = parse_etherscan(&spaced).unwrap();
    assert_eq!(resp.status, "1".to_string());
    assert_eq!(resp.message, "OK".to_string());
    assert_eq!(resp.result, "77".to_string());
}

#[test]
fn etherscan_reply_rejections() {
    assert!(parse_etherscan(&b"not json".to_vec()).is_err());
    assert!(parse_etherscan(&b"{\"status\":\"1\"}".to_vec()).is_err());
    // An escape sequence in a field is outside the accepted shape.
    let escaped = b"{\"status\":\"1\",\"message\":\"O\\K\",\"result\":\"5\"}".to_vec();
    assert_eq!(parse_etherscan(&escaped).err(), Some(HelloError::InvalidResponseBody));
    // A repeated field leaves one of the three names unmatched.
    let repeated = b"{\"status\":\"1\",\"status\":\"2\",\"result\":\"5\"}".to_vec();
    assert_eq!(parse_etherscan(&repeated).err(), Some(HelloError::InvalidResponseBody));
    // An unknown field in place of a required one is rejected.
    let unknown = b"{\"status\":\"1\",\"extra\":\"x\",\"result\":\"5\"}".to_vec();
    assert_eq!(parse_etherscan(&unknown).err(), Some(HelloError::InvalidResponseBody));
    // Trailing bytes after the object are rejected.
    let trailing = b"{\"status\":\"1\",\"message\":\"OK\",\"result\":\"5\"}x".to_vec();
    assert_eq!(parse_etherscan(&trailing).err(), Some(HelloError::InvalidResponseBody));
}

#[test]
fn balance_interpretation() {
    let body = b"{\"status\":\"1\",\"message\":\"OK\",\"result\":\"42\"}".to_vec();
    assert_eq!(interpret_balance_response(200, &body), Ok("42".to_string()));
    assert_eq!(
        interpret_balance_response(404, &body),
        Err(HelloError::HttpRequestFailed)
    );
    assert_eq!(
        interpret_balance_response(200, &b"garbage".to_vec()),
        Err(HelloError::InvalidResponseBody)
    );
}
