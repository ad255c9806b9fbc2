//! The capability bridge: the uniform interface to host-provided,
//! non-deterministic operations - HTTP transfer, signing, key derivation,
//! randomness, the ephemeral cache, the log sink and the transaction-mode
//! query.
//!
//! Each host operation is reached through one trusted wrapper around the
//! corresponding chain-extension call of the `pink-extension` crate. A
//! wrapper's contract states only what the host documents: key derivation
//! is deterministic in the salt, verification is a function of its
//! arguments, and nothing is promised where the outcome depends on the
//! environment (cache contents, transaction mode, randomness).
//!
//! Timeout policy: every host call is a synchronous round trip that the
//! host either completes within its own bounded time or answers with an
//! explicit failure (for HTTP, a non-2xx status). This library adds no
//! timeout of its own on top of the host's bound.

use vstd::prelude::*;

verus! {

use vstd::string::StringExecFns;

/// The signature schemes the host offers.
#[derive(Debug, Clone, Copy, PartialEq, Eq, Structural)]
pub enum SigType {
    Ed25519,
    Sr25519,
    Ecdsa,
}

/// A stable number for each scheme, used to index the host functions'
/// mathematical names.
pub open spec fn sig_type_id(t: SigType) -> int {
    match t {
        SigType::Ed25519 => 0,
        SigType::Sr25519 => 1,
        SigType::Ecdsa => 2,
    }
}

/// The private key the host derives from a salt: a pure function of the
/// salt (and the contract's own key, fixed for this module), never stated
/// further here.
pub uninterp spec fn derived_key(salt: Seq<u8>) -> Seq<u8>;

/// The public key matching a private key under a scheme.
pub uninterp spec fn public_key_of(sigtype: int, key: Seq<u8>) -> Seq<u8>;

/// Whether a signature is valid for a message under a public key and
/// scheme: a pure function of its arguments.
pub uninterp spec fn signature_valid(
    sigtype: int,
    pubkey: Seq<u8>,
    message: Seq<u8>,
    signature: Seq<u8>,
) -> bool;

/// Determinism of key derivation: every two derivations from the same
/// salt, whenever they happen, yield identical bytes.
pub proof fn lemma_derive_key_deterministic(salt: Seq<u8>, k1: Seq<u8>, k2: Seq<u8>)
    requires
        k1 == derived_key(salt),
        k2 == derived_key(salt),
    ensures
        k1 == k2,
{
}

/// A key the signing host accepts: one it derived itself from some salt.
pub open spec fn is_derived_key(key: Seq<u8>) -> bool {
    exists|salt: Seq<u8>| key == derived_key(salt)
}

/// Relies on `pink_extension::chain_extension::signing::derive_sr25519_key`:
/// the host derives the key deterministically from the salt and its own
/// contract key, so identical salts always yield identical bytes.
#[verifier::external_body]
pub(crate) fn derive_sr25519_key(salt: &[u8]) -> (r: Vec<u8>)
    ensures
        r@ == derived_key(salt@),
{
    pink_extension::chain_extension::signing::derive_sr25519_key(salt)
}

/// Relies on `pink_extension::chain_extension::signing::get_public_key`:
/// the public key is a function of the private key and the scheme. The
/// host documents the call for its own derived sr25519 key material,
/// so only that may be passed in.
#[verifier::external_body]
pub(crate) fn get_public_key(key: &[u8], sigtype: SigType) -> (r: Vec<u8>)
    requires
        is_derived_key(key@),
        sigtype == SigType::Sr25519,
    ensures
        r@ == public_key_of(sig_type_id(sigtype), key@),
{
    let t = match sigtype {
        SigType::Ed25519 => pink_extension::chain_extension::SigType::Ed25519,
        SigType::Sr25519 => pink_extension::chain_extension::SigType::Sr25519,
        SigType::Ecdsa => pink_extension::chain_extension::SigType::Ecdsa,
    };
    pink_extension::chain_extension::signing::get_public_key(key, t)
}

/// Relies on `pink_extension::chain_extension::signing::sign`: signing
/// with a host-derived key produces a signature that verifies for exactly
/// this message under the matching public key, as the host's own
/// documentation shows - and for no other message, since the bridge's
/// verification contract rejects any signature not matching the exact
/// message. The host documents the call for its own derived sr25519 key
/// material, so only that may be passed in.
#[verifier::external_body]
pub(crate) fn sign(message: &[u8], key: &[u8], sigtype: SigType) -> (r: Vec<u8>)
    requires
        is_derived_key(key@),
        sigtype == SigType::Sr25519,
    ensures
        signature_valid(sig_type_id(sigtype), public_key_of(sig_type_id(sigtype), key@), message@, r@),
        forall|m2: Seq<u8>|
            m2 != message@ ==> !signature_valid(
                sig_type_id(sigtype),
                public_key_of(sig_type_id(sigtype), key@),
                m2,
                r@,
            ),
{
    let t = match sigtype {
        SigType::Ed25519 => pink_extension::chain_extension::SigType::Ed25519,
        SigType::Sr25519 => pink_extension::chain_extension::SigType::Sr25519,
        SigType::Ecdsa => pink_extension::chain_extension::SigType::Ecdsa,
    };
    pink_extension::chain_extension::signing::sign(message, key, t)
}

/// Relies on `pink_extension::chain_extension::signing::verify`: the
/// verdict is a pure function of scheme, public key, message and
/// signature.
#[verifier::external_body]
pub(crate) fn verify(message: &[u8], pubkey: &[u8], signature: &[u8], sigtype: SigType) -> (r: bool)
    ensures
        r == signature_valid(sig_type_id(sigtype), pubkey@, message@, signature@),
{
    let t = match sigtype {
        SigType::Ed25519 => pink_extension::chain_extension::SigType::Ed25519,
        SigType::Sr25519 => pink_extension::chain_extension::SigType::Sr25519,
        SigType::Ecdsa => pink_extension::chain_extension::SigType::Ecdsa,
    };
    pink_extension::chain_extension::signing::verify(message, pubkey, signature, t)
}

/// The four bytes spelling the salt prefix of the randomness capability.
pub open spec fn vrf_salt_prefix() -> Seq<u8> {
    seq![118u8, 114u8, 102u8, 58u8]
}

/// Verifiable randomness: a key derived under the caller's salt, prefixed
/// so that it can never collide with a key derived for signing. The bytes
/// are unpredictable to the caller before the call, yet reproducible by
/// this module.
pub fn vrf(salt: &[u8]) -> (r: Vec<u8>)
    ensures
        r@ == derived_key(vrf_salt_prefix() + salt@),
{
    let mut key_salt: Vec<u8> = Vec::new();
    key_salt.push(118u8);
    key_salt.push(114u8);
    key_salt.push(102u8);
    key_salt.push(58u8);
    let mut i: usize = 0;
    while i < salt.len()
        invariant
            i <= salt@.len(),
            key_salt@ == vrf_salt_prefix() + salt@.take(i as int),
        decreases salt@.len() - i,
    {
        key_salt.push(salt[i]);
        i = i + 1;
        assert(key_salt@ =~= vrf_salt_prefix() + salt@.take(i as int));
    }
    assert(key_salt@ =~= vrf_salt_prefix() + salt@);
    derive_sr25519_key(key_salt.as_slice())
}

/// The randomness capability as a module exposes it: the salt echoed back
/// beside the derived randomness.
pub fn get_randomness(salt: &Vec<u8>) -> (r: (Vec<u8>, Vec<u8>))
    ensures
        r.0@ == salt@,
        r.1@ == derived_key(vrf_salt_prefix() + salt@),
{
    let echo: Vec<u8> = crate::codec::copy_range(salt, 0, salt.len());
    assert(echo@ =~= salt@);
    let randomness = vrf(salt.as_slice());
    (echo, randomness)
}

/// The cache refused a write because the module's share of storage is
/// used up.
#[derive(Debug, Clone, Copy, PartialEq, Eq, Structural)]
pub struct StorageQuotaExceeded;

/// Relies on `PinkExt::cache_set`. Nothing is promised of the cache's
/// later contents: entries may be evicted at any time, and writes inside
/// a transaction are silently dropped.
#[verifier::external_body]
pub(crate) fn cache_set(key: &[u8], value: &[u8]) -> (r: Result<(), StorageQuotaExceeded>) {
    pink_extension::ext().cache_set(key, value).map_err(|_| StorageQuotaExceeded)
}

/// Relies on `PinkExt::cache_get`. The result is whatever the host still
/// holds under this module's identity and this key - possibly nothing.
#[verifier::external_body]
pub(crate) fn cache_get(key: &[u8]) -> (r: Option<Vec<u8>>) {
    pink_extension::ext().cache_get(key)
}

/// Relies on `PinkExt::cache_remove`: removes the entry and returns the
/// prior value, or `None` if the host held nothing.
#[verifier::external_body]
pub(crate) fn cache_remove(key: &[u8]) -> (r: Option<Vec<u8>>) {
    pink_extension::ext().cache_remove(key)
}

/// Relies on `PinkExt::log`: fire-and-forget, never fails the caller.
#[verifier::external_body]
pub(crate) fn host_log(level: u8, message: &str) {
    pink_extension::ext().log(level, message)
}

/// Relies on `PinkExt::is_in_transaction`: `true` while the current call
/// may mutate persistent state, `false` for a pure query.
#[verifier::external_body]
pub(crate) fn is_in_transaction() -> (r: bool) {
    pink_extension::ext().is_in_transaction()
}

/// An HTTP request descriptor: method, url, headers in insertion order,
/// body bytes.
pub struct HttpRequest {
    pub method: String,
    pub url: String,
    pub headers: Vec<(String, String)>,
    pub body: Vec<u8>,
}

/// An HTTP response descriptor: status code and body bytes. A transport
/// failure presents as a non-2xx status, never as an exception;
/// interpreting the status is the caller's responsibility.
pub struct HttpResponse {
    pub status_code: u16,
    pub body: Vec<u8>,
}

/// Relies on `PinkExt::http_request`: the host performs the transfer
/// synchronously within a bounded time. The response depends on the
/// network, so nothing is promised of it.
#[verifier::external_body]
pub(crate) fn http_request(request: HttpRequest) -> (r: HttpResponse) {
    let response = pink_extension::ext().http_request(
        pink_extension::chain_extension::HttpRequest {
            method: request.method,
            url: request.url,
            headers: request.headers,
            body: request.body,
        },
    );
    HttpResponse { status_code: response.status_code, body: response.body }
}

/// The descriptor a plain GET fetch hands to the host: the GET method,
/// the caller's url, no headers and no body.
pub fn get_request(url: String) -> (r: HttpRequest)
    ensures
        r.method@ == "GET"@,
        r.url == url,
        r.headers@.len() == 0,
        r.body@.len() == 0,
{
    HttpRequest { method: String::from_str("GET"), url, headers: Vec::new(), body: Vec::new() }
}

/// The descriptor a plain POST hands to the host: the POST method, the
/// caller's url and body, no headers.
pub fn post_request(url: String, body: Vec<u8>) -> (r: HttpRequest)
    ensures
        r.method@ == "POST"@,
        r.url == url,
        r.headers@.len() == 0,
        r.body == body,
{
    HttpRequest { method: String::from_str("POST"), url, headers: Vec::new(), body }
}

/// Fetch a url: hand the host exactly `get_request(url)`. The response
/// comes from the network, so nothing is promised of it.
pub fn http_get(url: String) -> (r: HttpResponse) {
    http_request(get_request(url))
}

/// Send a POST request: hand the host exactly `post_request(url, body)`.
pub fn http_post(url: String, body: Vec<u8>) -> (r: HttpResponse) {
    http_request(post_request(url, body))
}

} // verus!
