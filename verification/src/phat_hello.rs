//! A module that answers balance queries by fetching a block-explorer API
//! over the HTTP capability and reading the `result` field out of the
//! JSON reply.
//!
//! The computation around the fetch is split out and verified: the
//! account check, and the parse of the three-field JSON reply body. The
//! fetch itself crosses the capability bridge.

use vstd::prelude::*;

verus! {

use vstd::utf8::{encode_utf8, decode_utf8, valid_utf8};
use vstd::string::{StringExecFns, StrSliceExecFns};
use crate::bridge;

#[derive(Debug, PartialEq, Eq, Structural, Clone, Copy)]
pub enum Error {
    InvalidEthAddress,
    HttpRequestFailed,
    InvalidResponseBody,
}

pub struct PhatHello {
    pub demo_field: bool,
}

/// A parsed block-explorer reply: three string fields.
pub struct EtherscanResponse {
    pub status: String,
    pub message: String,
    pub result: String,
}

impl PhatHello {
    pub fn new() -> (r: PhatHello)
        ensures
            r.demo_field,
    {
        PhatHello { demo_field: true }
    }
}

/// Whether an account string is acceptable: it is rejected only when it
/// both lacks the `0x` prefix and is not 42 bytes long.
pub open spec fn eth_account_acceptable(bytes: Seq<u8>) -> bool {
    ||| bytes.len() >= 2 && bytes[0] == 48 && bytes[1] == 120
    ||| bytes.len() == 42
}

/// The account check over the raw UTF-8 bytes of the account string.
pub fn check_eth_account(account: &Vec<u8>) -> (r: bool)
    ensures
        r == eth_account_acceptable(account@),
{
    if account.len() >= 2 && account[0] == 48 && account[1] == 120 {
        return true;
    }
    account.len() == 42
}

/// JSON insignificant whitespace: space, tab, line feed, carriage
/// return.
pub open spec fn is_json_ws(b: u8) -> bool {
    b == 32 || b == 9 || b == 10 || b == 13
}

/// The first position at or after `from` holding a non-whitespace byte,
/// or the buffer's length if there is none.
pub open spec fn skip_ws(bytes: Seq<u8>, from: int) -> int
    decreases bytes.len() - from,
{
    if from < 0 {
        bytes.len() as int
    } else if from >= bytes.len() {
        bytes.len() as int
    } else if is_json_ws(bytes[from]) {
        skip_ws(bytes, from + 1)
    } else {
        from
    }
}

/// The first position of a `"` byte at or after `from`, or the buffer's
/// length if there is none.
pub open spec fn find_quote(bytes: Seq<u8>, from: int) -> int
    decreases bytes.len() - from,
{
    if from < 0 {
        bytes.len() as int
    } else if from >= bytes.len() {
        bytes.len() as int
    } else if bytes[from] == 34 {
        from
    } else {
        find_quote(bytes, from + 1)
    }
}

/// A string in its raw form: no escape sequences.
pub open spec fn no_backslash(s: Seq<u8>) -> bool {
    forall|i: int| 0 <= i < s.len() ==> s[i] != 92
}

/// A JSON string token without escape sequences starting exactly at
/// `at`: its raw content and the position just past the closing quote.
pub open spec fn spec_string_token(bytes: Seq<u8>, at: int) -> Option<(Seq<u8>, int)> {
    if 0 <= at < bytes.len() && bytes[at] == 34 {
        let close = find_quote(bytes, at + 1);
        if close < bytes.len() && no_backslash(bytes.subrange(at + 1, close)) {
            Some((bytes.subrange(at + 1, close), close + 1))
        } else {
            None
        }
    } else {
        None
    }
}

/// One `"key": "value"` object member at or after `at`, whitespace
/// allowed around each token: the key, the value, and the position just
/// past the value.
pub open spec fn spec_member(bytes: Seq<u8>, at: int) -> Option<((Seq<u8>, Seq<u8>), int)> {
    match spec_string_token(bytes, skip_ws(bytes, at)) {
        Some((key, p)) => {
            let colon = skip_ws(bytes, p);
            if colon < bytes.len() && bytes[colon] == 58 {
                match spec_string_token(bytes, skip_ws(bytes, colon + 1)) {
                    Some((value, q)) => Some(((key, value), q)),
                    None => None,
                }
            } else {
                None
            }
        },
        None => None,
    }
}

/// The bytes of the field name `status`.
pub open spec fn key_status() -> Seq<u8> {
    seq![115u8, 116u8, 97u8, 116u8, 117u8, 115u8]
}

/// The bytes of the field name `message`.
pub open spec fn key_message() -> Seq<u8> {
    seq![109u8, 101u8, 115u8, 115u8, 97u8, 103u8, 101u8]
}

/// The bytes of the field name `result`.
pub open spec fn key_result() -> Seq<u8> {
    seq![114u8, 101u8, 115u8, 117u8, 108u8, 116u8]
}

/// The three members of a three-member JSON object, in textual order, if
/// the whole buffer is exactly `{ m1 , m2 , m3 }` with whitespace
/// allowed between tokens.
pub open spec fn spec_three_members(bytes: Seq<u8>) -> Option<
    ((Seq<u8>, Seq<u8>), (Seq<u8>, Seq<u8>), (Seq<u8>, Seq<u8>)),
> {
    let open = skip_ws(bytes, 0);
    if open < bytes.len() && bytes[open] == 123 {
        match spec_member(bytes, open + 1) {
            Some((m1, p1)) => {
                let c1 = skip_ws(bytes, p1);
                if c1 < bytes.len() && bytes[c1] == 44 {
                    match spec_member(bytes, c1 + 1) {
                        Some((m2, p2)) => {
                            let c2 = skip_ws(bytes, p2);
                            if c2 < bytes.len() && bytes[c2] == 44 {
                                match spec_member(bytes, c2 + 1) {
                                    Some((m3, p3)) => {
                                        let close = skip_ws(bytes, p3);
                                        if close < bytes.len() && bytes[close] == 125 && skip_ws(
                                            bytes,
                                            close + 1,
                                        ) == bytes.len() {
                                            Some((m1, m2, m3))
                                        } else {
                                            None
                                        }
                                    },
                                    None => None,
                                }
                            } else {
                                None
                            }
                        },
                        None => None,
                    }
                } else {
                    None
                }
            },
            None => None,
        }
    } else {
        None
    }
}

/// The value of the member carrying `key`, taking the first match in
/// textual order.
pub open spec fn pick_field(
    m1: (Seq<u8>, Seq<u8>),
    m2: (Seq<u8>, Seq<u8>),
    m3: (Seq<u8>, Seq<u8>),
    key: Seq<u8>,
) -> Option<Seq<u8>> {
    if m1.0 == key {
        Some(m1.1)
    } else if m2.0 == key {
        Some(m2.1)
    } else if m3.0 == key {
        Some(m3.1)
    } else {
        None
    }
}

/// Parse of a block-explorer reply: a JSON object carrying exactly the
/// three fields `status`, `message` and `result`, in any order, with
/// whitespace allowed between tokens. Values must be strings without
/// escape sequences and valid UTF-8; a missing or repeated field (a
/// repeat leaves one of the three names unmatched), an unknown field, or
/// any other shape is rejected.
pub open spec fn spec_parse_etherscan(bytes: Seq<u8>) -> Option<
    (Seq<char>, Seq<char>, Seq<char>),
> {
    match spec_three_members(bytes) {
        Some((m1, m2, m3)) => {
            match pick_field(m1, m2, m3, key_status()) {
                Some(status) => {
                    match pick_field(m1, m2, m3, key_message()) {
                        Some(message) => {
                            match pick_field(m1, m2, m3, key_result()) {
                                Some(result) => {
                                    if valid_utf8(status) && valid_utf8(message) && valid_utf8(
                                        result,
                                    ) {
                                        Some(
                                            (
                                                decode_utf8(status),
                                                decode_utf8(message),
                                                decode_utf8(result),
                                            ),
                                        )
                                    } else {
                                        None
                                    }
                                },
                                None => None,
                            }
                        },
                        None => None,
                    }
                },
                None => None,
            }
        },
        None => None,
    }
}

/// Scan forward to the first non-whitespace byte.
fn skip_ws_exec(bytes: &Vec<u8>, from: usize) -> (r: usize)
    requires
        from <= bytes@.len(),
    ensures
        r == skip_ws(bytes@, from as int),
        from <= r <= bytes@.len(),
{
    let mut i: usize = from;
    while i < bytes.len()
        invariant
            from <= i <= bytes@.len(),
            skip_ws(bytes@, from as int) == skip_ws(bytes@, i as int),
        decreases bytes@.len() - i,
    {
        let b = bytes[i];
        if !(b == 32 || b == 9 || b == 10 || b == 13) {
            return i;
        }
        i = i + 1;
    }
    i
}

/// Scan forward to the first `"` byte.
fn find_quote_exec(bytes: &Vec<u8>, from: usize) -> (r: usize)
    requires
        from <= bytes@.len(),
    ensures
        r == find_quote(bytes@, from as int),
        from <= r <= bytes@.len(),
{
    let mut i: usize = from;
    while i < bytes.len()
        invariant
            from <= i <= bytes@.len(),
            find_quote(bytes@, from as int) == find_quote(bytes@, i as int),
        decreases bytes@.len() - i,
    {
        if bytes[i] == 34 {
            return i;
        }
        i = i + 1;
    }
    i
}

/// Whether `lit` sits at `at` inside `bytes`.
fn match_lit(bytes: &Vec<u8>, at: usize, lit: &[u8]) -> (r: bool)
    requires
        at <= bytes@.len(),
    ensures
        r == (at + lit@.len() <= bytes@.len() && bytes@.subrange(
            at as int,
            at + lit@.len(),
        ) == lit@),
{
    if bytes.len() - at < lit.len() {
        assert(at + lit@.len() > bytes@.len());
        return false;
    }
    let mut i: usize = 0;
    while i < lit.len()
        invariant
            i <= lit@.len(),
            at + lit@.len() <= bytes@.len() <= usize::MAX,
            forall|j: int| 0 <= j < i ==> bytes@[at + j] == lit@[j],
        decreases lit@.len() - i,
    {
        assert(at + i < bytes@.len());
        if bytes[at + i] != *vstd::slice::slice_index_get(lit, i) {
            assert(bytes@.subrange(at as int, at + lit@.len())[i as int] != lit@[i as int]);
            return false;
        }
        i = i + 1;
    }
    assert(bytes@.subrange(at as int, at + lit@.len()) =~= lit@);
    true
}

/// Whether `bytes[s..e]` is exactly `lit`.
fn range_is(bytes: &Vec<u8>, s: usize, e: usize, lit: &[u8]) -> (r: bool)
    requires
        s <= e <= bytes@.len(),
    ensures
        r == (bytes@.subrange(s as int, e as int) == lit@),
{
    if e - s != lit.len() {
        assert(bytes@.subrange(s as int, e as int).len() != lit@.len());
        return false;
    }
    assert(bytes@.subrange(s as int, e as int) =~= bytes@.subrange(s as int, s + lit@.len()));
    match_lit(bytes, s, lit)
}

/// Whether `bytes[from..to]` is free of backslash bytes.
fn scan_no_backslash(bytes: &Vec<u8>, from: usize, to: usize) -> (r: bool)
    requires
        from <= to <= bytes@.len(),
    ensures
        r == no_backslash(bytes@.subrange(from as int, to as int)),
{
    let mut i: usize = from;
    while i < to
        invariant
            from <= i <= to <= bytes@.len(),
            forall|j: int| 0 <= j < i - from ==> bytes@.subrange(from as int, to as int)[j] != 92,
        decreases to - i,
    {
        if bytes[i] == 92 {
            assert(bytes@.subrange(from as int, to as int)[i - from] == 92);
            return false;
        }
        i = i + 1;
    }
    true
}

/// A string token at `at`: the content's start and end positions and the
/// position just past the closing quote.
fn string_token(bytes: &Vec<u8>, at: usize) -> (r: Option<(usize, usize, usize)>)
    requires
        at <= bytes@.len(),
    ensures
        match r {
            Some((s, e, n)) => {
                &&& spec_string_token(bytes@, at as int) == Some(
                    (bytes@.subrange(s as int, e as int), n as int),
                )
                &&& at < s <= e < bytes@.len()
                &&& n == e + 1
            },
            None => spec_string_token(bytes@, at as int) is None,
        },
{
    if at >= bytes.len() {
        return None;
    }
    if bytes[at] != 34 {
        return None;
    }
    let close = find_quote_exec(bytes, at + 1);
    if close >= bytes.len() {
        return None;
    }
    if !scan_no_backslash(bytes, at + 1, close) {
        return None;
    }
    Some((at + 1, close, close + 1))
}

/// One object member at or after `at`: the key's and the value's
/// positions and the position just past the member.
fn member(bytes: &Vec<u8>, at: usize) -> (r: Option<(usize, usize, usize, usize, usize)>)
    requires
        at <= bytes@.len(),
    ensures
        match r {
            Some((ks, ke, vs, ve, n)) => {
                &&& spec_member(bytes@, at as int) == Some(
                    (
                        (
                            bytes@.subrange(ks as int, ke as int),
                            bytes@.subrange(vs as int, ve as int),
                        ),
                        n as int,
                    ),
                )
                &&& ks <= ke <= bytes@.len()
                &&& vs <= ve <= bytes@.len()
                &&& n <= bytes@.len()
            },
            None => spec_member(bytes@, at as int) is None,
        },
{
    let kstart = skip_ws_exec(bytes, at);
    let (ks, ke, p) = match string_token(bytes, kstart) {
        Some(t) => t,
        None => {
            return None;
        },
    };
    let colon = skip_ws_exec(bytes, p);
    if colon >= bytes.len() {
        return None;
    }
    if bytes[colon] != 58 {
        return None;
    }
    let vstart = skip_ws_exec(bytes, colon + 1);
    let (vs, ve, q) = match string_token(bytes, vstart) {
        Some(t) => t,
        None => {
            return None;
        },
    };
    Some((ks, ke, vs, ve, q))
}

/// Parse the reply body into its three fields; any deviation from the
/// accepted JSON shape is an invalid response body.
pub fn parse_etherscan(body: &Vec<u8>) -> (r: Result<EtherscanResponse, Error>)
    ensures
        match r {
            Ok(resp) => spec_parse_etherscan(body@) == Some(
                (resp.status@, resp.message@, resp.result@),
            ),
            Err(e) => e == Error::InvalidResponseBody && spec_parse_etherscan(body@) is None,
        },
{
    let total: usize = body.len();
    assert(total == body@.len());
    let open_pos = skip_ws_exec(body, 0);
    if open_pos >= body.len() {
        return Err(Error::InvalidResponseBody);
    }
    if body[open_pos] != 123 {
        return Err(Error::InvalidResponseBody);
    }
    let m1 = match member(body, open_pos + 1) {
        Some(m) => m,
        None => {
            return Err(Error::InvalidResponseBody);
        },
    };
    let c1 = skip_ws_exec(body, m1.4);
    if c1 >= body.len() {
        return Err(Error::InvalidResponseBody);
    }
    if body[c1] != 44 {
        return Err(Error::InvalidResponseBody);
    }
    let m2 = match member(body, c1 + 1) {
        Some(m) => m,
        None => {
            return Err(Error::InvalidResponseBody);
        },
    };
    let c2 = skip_ws_exec(body, m2.4);
    if c2 >= body.len() {
        return Err(Error::InvalidResponseBody);
    }
    if body[c2] != 44 {
        return Err(Error::InvalidResponseBody);
    }
    let m3 = match member(body, c2 + 1) {
        Some(m) => m,
        None => {
            return Err(Error::InvalidResponseBody);
        },
    };
    let close_pos = skip_ws_exec(body, m3.4);
    if close_pos >= body.len() {
        return Err(Error::InvalidResponseBody);
    }
    if body[close_pos] != 125 {
        return Err(Error::InvalidResponseBody);
    }
    if skip_ws_exec(body, close_pos + 1) != body.len() {
        return Err(Error::InvalidResponseBody);
    }
    let key_s: [u8; 6] = [115u8, 116u8, 97u8, 116u8, 117u8, 115u8];
    let key_m: [u8; 7] = [109u8, 101u8, 115u8, 115u8, 97u8, 103u8, 101u8];
    let key_r: [u8; 6] = [114u8, 101u8, 115u8, 117u8, 108u8, 116u8];
    assert(key_s@ =~= key_status());
    assert(key_m@ =~= key_message());
    assert(key_r@ =~= key_result());
    let status_range: (usize, usize) = if range_is(body, m1.0, m1.1, key_s.as_slice()) {
        (m1.2, m1.3)
    } else if range_is(body, m2.0, m2.1, key_s.as_slice()) {
        (m2.2, m2.3)
    } else if range_is(body, m3.0, m3.1, key_s.as_slice()) {
        (m3.2, m3.3)
    } else {
        return Err(Error::InvalidResponseBody);
    };
    let message_range: (usize, usize) = if range_is(body, m1.0, m1.1, key_m.as_slice()) {
        (m1.2, m1.3)
    } else if range_is(body, m2.0, m2.1, key_m.as_slice()) {
        (m2.2, m2.3)
    } else if range_is(body, m3.0, m3.1, key_m.as_slice()) {
        (m3.2, m3.3)
    } else {
        return Err(Error::InvalidResponseBody);
    };
    let result_range: (usize, usize) = if range_is(body, m1.0, m1.1, key_r.as_slice()) {
        (m1.2, m1.3)
    } else if range_is(body, m2.0, m2.1, key_r.as_slice()) {
        (m2.2, m2.3)
    } else if range_is(body, m3.0, m3.1, key_r.as_slice()) {
        (m3.2, m3.3)
    } else {
        return Err(Error::InvalidResponseBody);
    };
    let status = match crate::codec::string_from_utf8(
        crate::codec::copy_range(body, status_range.0, status_range.1),
    ) {
        Some(s) => s,
        None => {
            return Err(Error::InvalidResponseBody);
        },
    };
    let message = match crate::codec::string_from_utf8(
        crate::codec::copy_range(body, message_range.0, message_range.1),
    ) {
        Some(s) => s,
        None => {
            return Err(Error::InvalidResponseBody);
        },
    };
    let result = match crate::codec::string_from_utf8(
        crate::codec::copy_range(body, result_range.0, result_range.1),
    ) {
        Some(s) => s,
        None => {
            return Err(Error::InvalidResponseBody);
        },
    };
    Ok(EtherscanResponse { status, message, result })
}

/// Fold the host's HTTP response/// Fold the host's HTTP response into the caller's result: a non-200
/// status is a failed request, an unparseable body is an invalid
/// response, and otherwise the reply's `result` field is the answer.
pub fn interpret_balance_response(status_code: u16, body: &Vec<u8>) -> (r: Result<String, Error>)
    ensures
        match r {
            Ok(s) => status_code == 200 && spec_parse_etherscan(body@) is Some && s@
                == spec_parse_etherscan(body@)->Some_0.2,
            Err(Error::HttpRequestFailed) => status_code != 200,
            Err(Error::InvalidResponseBody) => status_code == 200 && spec_parse_etherscan(
                body@,
            ) is None,
            Err(Error::InvalidEthAddress) => false,
        },
{
    if status_code != 200 {
        return Err(Error::HttpRequestFailed);
    }
    match parse_etherscan(body) {
        Ok(resp) => Ok(resp.result),
        Err(e) => Err(Error::InvalidResponseBody),
    }
}

impl PhatHello {
    /// The query url the balance fetch hands to the host: the block
    /// explorer's balance endpoint with the account appended.
    pub fn balance_query_url(account: &String) -> (r: String)
        ensures
            r@ == "https://api.etherscan.io/api?module=account&action=balance&address="@
                + account@,
    {
        let mut url = String::from_str(
            "https://api.etherscan.io/api?module=account&action=balance&address=",
        );
        url.append(account.as_str());
        url
    }

    /// Answer a balance query: screen the account string, fetch the
    /// block explorer's reply over the capability bridge from exactly
    /// `balance_query_url(account)`, and read the `result` field out of
    /// it. An unacceptable account is the one rejection this module
    /// decides itself; everything after that depends on what the network
    /// returned.
    pub fn get_eth_balance(&self, account: String) -> (r: Result<String, Error>)
        ensures
            r == Err::<String, Error>(Error::InvalidEthAddress) <==> !eth_account_acceptable(
                encode_utf8(account@),
            ),
    {
        let account_bytes = account.as_str().as_bytes_vec();
        if !check_eth_account(&account_bytes) {
            return Err(Error::InvalidEthAddress);
        }
        let url = PhatHello::balance_query_url(&account);
        let resp = bridge::http_get(url);
        let out = interpret_balance_response(resp.status_code, &resp.body);
        match out {
            Ok(s) => Ok(s),
            Err(e) => {
                assert(e != Error::InvalidEthAddress);
                Err(e)
            },
        }
    }
}

} // verus!
