//! A consumer of the ephemeral cache capability, storing one value under
//! the fixed key `"key"`.

use vstd::prelude::*;

verus! {

use crate::bridge;

#[derive(Debug, PartialEq, Eq, Structural, Clone, Copy)]
pub enum Error {
    KeyValueNotSet,
    InvalidKeyValue,
}

pub struct UseCache {}

impl UseCache {
    pub fn default() -> (r: UseCache) {
        UseCache {  }
    }

    /// The cached value, if the host still holds one. The cache promises
    /// no retention, so absence is an ordinary outcome.
    pub fn get_key_value(&self) -> (r: Option<Vec<u8>>) {
        let key: [u8; 3] = [107u8, 101u8, 121u8];
        bridge::cache_get(key.as_slice())
    }

    /// Store `value`; the only failure the cache reports is an exhausted
    /// storage quota.
    pub fn set_key_value(&self, value: Vec<u8>) -> (r: Result<(), Error>)
        ensures
            r is Err ==> r == Err::<(), Error>(Error::KeyValueNotSet),
    {
        let key: [u8; 3] = [107u8, 101u8, 121u8];
        match bridge::cache_set(key.as_slice(), value.as_slice()) {
            Ok(_) => Ok(()),
            Err(_) => Err(Error::KeyValueNotSet),
        }
    }

    /// Probe the live cache: write, read back, remove, read again, and
    /// report whether the host behaved like a cache that retained the
    /// entry for the duration. The host does not owe retention, so the
    /// result reflects the environment, not this module.
    pub fn test(&self) -> (r: bool) {
        let key: [u8; 3] = [107u8, 101u8, 121u8];
        let value: [u8; 5] = [118u8, 97u8, 108u8, 117u8, 101u8];
        let set_ok = bridge::cache_set(key.as_slice(), value.as_slice()).is_ok();
        if !set_ok {
            return false;
        }
        let got = match bridge::cache_get(key.as_slice()) {
            Some(v) => crate::cache::vecs_equal(&v, value.as_slice()),
            None => false,
        };
        if !got {
            return false;
        }
        let removed = match bridge::cache_remove(key.as_slice()) {
            Some(v) => crate::cache::vecs_equal(&v, value.as_slice()),
            None => false,
        };
        if !removed {
            return false;
        }
        match bridge::cache_get(key.as_slice()) {
            Some(_) => false,
            None => true,
        }
    }
}

} // verus!
