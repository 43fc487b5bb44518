use vstd::prelude::*;
use std::hash::{Hash, Hasher};
use siphasher::sip128::{Hasher128, SipHasher};

verus! {

/// Operating-system file-identity metadata: the device and inode numbers (or
/// their platform equivalent) of the underlying file. Two path strings that
/// name the same file on disk stat to the same `FileMeta`.
#[derive(Clone, Copy, Debug, PartialEq, Eq, Structural)]
pub struct FileMeta {
    pub dev: u64,
    pub ino: u64,
}

/// The 128-bit token that hashing a device/inode pair yields.
pub uninterp spec fn ident_of(dev: u64, ino: u64) -> u128;

/// Relies on siphasher's `SipHasher` through std's `Hasher` interface: the
/// 128-bit digest is a function of the written words alone.
#[verifier::external_body]
fn sip_hash_pair(dev: u64, ino: u64) -> (r: u128)
    ensures
        r == ident_of(dev, ino),
{
    let mut state = SipHasher::new();
    dev.hash(&mut state);
    ino.hash(&mut state);
    state.finish128().as_u128()
}

impl FileMeta {
    /// The canonical identity token of this file: a fixed-width hash of the
    /// identity metadata alone, so any two paths with the same underlying
    /// file receive the same token.
    pub fn identity(&self) -> (r: u128)
        ensures
            r == ident_of(self.dev, self.ino),
    {
        sip_hash_pair(self.dev, self.ino)
    }
}

/// The identity token depends on the file's identity metadata alone: any two
/// paths whose metadata agree receive equal tokens, however the paths are
/// spelled.
pub proof fn lemma_identity_path_independent(m1: FileMeta, m2: FileMeta)
    requires
        m1.dev == m2.dev,
        m1.ino == m2.ino,
    ensures
        ident_of(m1.dev, m1.ino) == ident_of(m2.dev, m2.ino),
{
}

} // verus!
