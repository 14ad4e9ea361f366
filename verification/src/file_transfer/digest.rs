//! Digests of file contents.

use vstd::prelude::*;

use sha2::Digest;

use crate::text::{hex, hex_text};

verus! {

/// The SHA-256 hasher of the `sha2` crate.
#[verifier::external_type_specification]
#[verifier::external_body]
pub struct ExSha256(sha2::Sha256);

/// The bytes that a hasher was fed so far.
pub uninterp spec fn sha256_absorbed(hasher: sha2::Sha256) -> Seq<u8>;

/// The SHA-256 digest of some bytes.
pub uninterp spec fn sha256(data: Seq<u8>) -> Seq<u8>;

/// SHA-256 is defined for messages of fewer bytes than this.
pub const SHA256_LIMIT: u64 = 0x2000_0000_0000_0000;

/// `sha2::Sha256::new`: a hasher that was fed nothing.
#[verifier::external_body]
fn sha256_new() -> (hasher: sha2::Sha256)
    ensures
        sha256_absorbed(hasher) == Seq::<u8>::empty(),
{
    sha2::Sha256::new()
}

/// `sha2::Sha256::update`: feeds the hasher `data` after what it was fed before.
#[verifier::external_body]
fn sha256_update(hasher: &mut sha2::Sha256, data: &[u8])
    requires
        sha256_absorbed(*old(hasher)).len() + data@.len() <= u64::MAX,
    ensures
        sha256_absorbed(*final(hasher)) == sha256_absorbed(*old(hasher)) + data@,
{
    hasher.update(data);
}

/// `sha2::Sha256::finalize`: the digest, of 32 bytes, of everything that the
/// hasher was fed. The message must be one for which SHA-256 is defined.
#[verifier::external_body]
fn sha256_finalize(hasher: sha2::Sha256) -> (digest: Vec<u8>)
    requires
        sha256_absorbed(hasher).len() < SHA256_LIMIT,
    ensures
        digest@ == sha256(sha256_absorbed(hasher)),
        digest@.len() == 32,
{
    hasher.finalize().to_vec()
}

/// The digest of a file that is read piece by piece.
pub struct FileDigest {
    hasher: sha2::Sha256,
    fed: u64,
}

impl View for FileDigest {
    type V = Seq<u8>;

    /// The bytes of the file so far.
    closed spec fn view(&self) -> Seq<u8> {
        sha256_absorbed(self.hasher)
    }
}

/// The digest of a file in hexadecimal, where the file is short enough to have
/// one.
pub open spec fn digest_text(content: Seq<u8>) -> Option<Seq<char>> {
    if content.len() < SHA256_LIMIT { Some(hex(sha256(content))) } else { None }
}

impl FileDigest {
    pub closed spec fn wf(&self) -> bool {
        self.fed == self@.len()
    }

    /// The digest of an empty file.
    pub fn new() -> (d: Self)
        ensures
            d.wf(),
            d@ == Seq::<u8>::empty(),
    {
        FileDigest { hasher: sha256_new(), fed: 0 }
    }

    /// The next piece of the file.
    pub fn update(&mut self, data: &[u8])
        requires
            old(self).wf(),
            old(self)@.len() + data@.len() <= u64::MAX,
        ensures
            final(self).wf(),
            final(self)@ == old(self)@ + data@,
    {
        sha256_update(&mut self.hasher, data);
        self.fed = self.fed + data.len() as u64;
    }

    /// The digest in hexadecimal, or nothing for a file that is too long to have
    /// one.
    pub fn finish(self) -> (r: Option<String>)
        requires
            self.wf(),
        ensures
            match digest_text(self@) {
                Some(t) => r matches Some(s) && s@ == t,
                None => r is None,
            },
    {
        if self.fed >= SHA256_LIMIT {
            return None;
        }
        let digest = sha256_finalize(self.hasher);
        Some(hex_text(digest.as_slice()))
    }
}

/// The digest of a file is the SHA-256 of its contents in lower-case hexadecimal, for
/// every file for which SHA-256 is defined.
pub proof fn law_digest_is_that_of_the_contents(content: Seq<u8>)
    ensures
        content.len() < 0x2000_0000_0000_0000 ==> digest_text(content) == Some(hex(sha256(content))),
        content.len() >= 0x2000_0000_0000_0000 ==> digest_text(content) is None,
{
}

} // verus!
