//! A module holding a key pair derived from a fixed salt, exposing sign
//! and verify over the capability bridge.

use vstd::prelude::*;

verus! {

use vstd::utf8::encode_utf8;
use crate::bridge::{
    SigType, sig_type_id, derived_key, public_key_of, signature_valid, derive_sr25519_key,
    get_public_key, sign, verify,
};

/// The bytes of the salt `"a spoon of salt"` the module derives its key
/// pair from.
pub open spec fn signing_salt() -> Seq<u8> {
    seq![
        97u8, 32u8, 115u8, 112u8, 111u8, 111u8, 110u8, 32u8, 111u8, 102u8, 32u8, 115u8, 97u8,
        108u8, 116u8,
    ]
}

pub struct Signing {
    pub privkey: Vec<u8>,
    pub pubkey: Vec<u8>,
}

impl Signing {
    /// The key pair is well-formed: the private key was derived by the
    /// host and the public key matches it under sr25519.
    pub open spec fn well_formed(&self) -> bool {
        &&& crate::bridge::is_derived_key(self.privkey@)
        &&& self.pubkey@ == public_key_of(sig_type_id(SigType::Sr25519), self.privkey@)
    }

    /// Derive the module's key pair from the fixed salt.
    pub fn default() -> (r: Signing)
        ensures
            r.well_formed(),
            r.privkey@ == derived_key(signing_salt()),
    {
        let salt: [u8; 15] = [
            97u8, 32u8, 115u8, 112u8, 111u8, 111u8, 110u8, 32u8, 111u8, 102u8, 32u8, 115u8, 97u8,
            108u8, 116u8,
        ];
        assert(salt@ =~= signing_salt());
        let gen_privkey = derive_sr25519_key(salt.as_slice());
        let gen_pubkey = get_public_key(gen_privkey.as_slice(), SigType::Sr25519);
        let r = Signing { privkey: gen_privkey, pubkey: gen_pubkey };
        proof {
            assert(crate::bridge::is_derived_key(r.privkey@)) by {
                assert(r.privkey@ == derived_key(signing_salt()));
            }
        }
        r
    }

    /// Sign a message with the module's private key; the signature is
    /// valid for exactly this message under the module's public key,
    /// and for no other message.
    pub fn sign(&self, message: String) -> (r: Vec<u8>)
        requires
            self.well_formed(),
        ensures
            signature_valid(
                sig_type_id(SigType::Sr25519),
                self.pubkey@,
                encode_utf8(message@),
                r@,
            ),
            forall|m2: Seq<u8>|
                m2 != encode_utf8(message@) ==> !signature_valid(
                    sig_type_id(SigType::Sr25519),
                    self.pubkey@,
                    m2,
                    r@,
                ),
    {
        sign(message.as_str().as_bytes(), self.privkey.as_slice(), SigType::Sr25519)
    }

    /// Check a signature over a message against the module's public key.
    pub fn verify(&self, message: String, signature: Vec<u8>) -> (r: bool)
        ensures
            r == signature_valid(
                sig_type_id(SigType::Sr25519),
                self.pubkey@,
                encode_utf8(message@),
                signature@,
            ),
    {
        verify(
            message.as_str().as_bytes(),
            self.pubkey.as_slice(),
            signature.as_slice(),
            SigType::Sr25519,
        )
    }

    /// The bytes of the forged message `"Fake"` used by the self-check.
    pub open spec fn fake_message() -> Seq<u8> {
        seq![70u8, 97u8, 107u8, 101u8]
    }

    /// Self-check: sign the message, confirm the signature verifies for
    /// it, and confirm the same signature is rejected over the forged
    /// message `"Fake"`. Both checks are proved to hold, so the function
    /// cannot fail; a message equal to the forgery is left out, since
    /// there the second check cannot hold.
    pub fn test(&self, message: String)
        requires
            self.well_formed(),
            encode_utf8(message@) != Signing::fake_message(),
    {
        let signature = sign(
            message.as_str().as_bytes(),
            self.privkey.as_slice(),
            SigType::Sr25519,
        );
        let pass = verify(
            message.as_str().as_bytes(),
            self.pubkey.as_slice(),
            signature.as_slice(),
            SigType::Sr25519,
        );
        assert(pass);
        let fake: [u8; 4] = [70u8, 97u8, 107u8, 101u8];
        assert(fake@ =~= Signing::fake_message());
        let pass_fake = verify(
            fake.as_slice(),
            self.pubkey.as_slice(),
            signature.as_slice(),
            SigType::Sr25519,
        );
        assert(!pass_fake);
    }
}

} // verus!
