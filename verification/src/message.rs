//! Hashing for anything that holds bytes.
use vstd::prelude::*;
use vstd::slice::slice_to_vec;
use vstd::utf8::encode_utf8;
use crate::digest::SHA1;
use crate::model::sha1_digest;

verus! {

/// A value with a byte content that can be hashed.
pub trait HashSHA1 {
    /// The bytes that the digest is taken of.
    spec fn message(&self) -> Seq<u8>;

    /// The SHA-1 digest of the value's bytes.
    fn sha1(&self) -> (h: SHA1)
        ensures
            h@ == sha1_digest(self.message()),
    ;
}

/// A string is hashed as its UTF-8 encoding.
impl HashSHA1 for String {
    open spec fn message(&self) -> Seq<u8> {
        encode_utf8(self@)
    }

    fn sha1(&self) -> (h: SHA1) {
        let msg: Vec<u8> = self.as_str().as_bytes_vec();
        SHA1::hash_sha1(msg)
    }
}

/// A string slice is hashed as its UTF-8 encoding.
impl HashSHA1 for str {
    open spec fn message(&self) -> Seq<u8> {
        encode_utf8(self@)
    }

    fn sha1(&self) -> (h: SHA1) {
        let msg: Vec<u8> = self.as_bytes_vec();
        SHA1::hash_sha1(msg)
    }
}

impl HashSHA1 for [u8] {
    open spec fn message(&self) -> Seq<u8> {
        self@
    }

    fn sha1(&self) -> (h: SHA1) {
        let msg: Vec<u8> = slice_to_vec(self);
        SHA1::hash_sha1(msg)
    }
}

impl HashSHA1 for &[u8] {
    open spec fn message(&self) -> Seq<u8> {
        self@
    }

    fn sha1(&self) -> (h: SHA1) {
        let msg: Vec<u8> = slice_to_vec(*self);
        SHA1::hash_sha1(msg)
    }
}

impl HashSHA1 for Vec<u8> {
    open spec fn message(&self) -> Seq<u8> {
        self@
    }

    fn sha1(&self) -> (h: SHA1) {
        SHA1::hash_sha1(self.clone())
    }
}

} // verus!
