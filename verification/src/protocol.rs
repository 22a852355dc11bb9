//! The data model of the chain: digests, keys, signatures, threshold
//! policies and the five block variants.

use vstd::prelude::*;
use crate::as_types::{ActivityStreamEntity, Ztm};

verus! {

/// An algorithm-tagged content hash: the full multihash byte form
/// (algorithm code, length, digest). Equality is byte equality.
#[derive(PartialEq, Eq, Debug, Clone)]
pub struct Digest {
    pub bytes: Vec<u8>,
}

/// An enum of different key algorithms.
#[derive(PartialEq, Eq, Structural, Clone, Copy, Debug)]
pub enum KeyAlgo {
    /// An Ed25519 public key.
    Ed25519,
    /// A PGP key blob.
    Pgp,
}

/// A public key prefixed with the algorithm used, followed by the
/// key content. Never mutated; compared by value.
#[derive(PartialEq, Eq, Debug, Clone)]
pub struct MultiKey {
    pub alg: KeyAlgo,
    pub key: Vec<u8>,
}

/// A signature as submitted with a block: the key it claims to come
/// from and the signature bytes themselves. Whether it verifies
/// cryptographically is decided by the signature provider outside the
/// core; the core consumes that verdict as a plain boolean.
#[derive(PartialEq, Eq, Debug, Clone)]
pub struct Signature {
    pub key: MultiKey,
    pub sig: Vec<u8>,
}

/// The kind of action a block performs; thresholds are resolved per
/// category.
#[derive(PartialEq, Eq, Structural, Clone, Copy, Debug)]
pub enum ActionCategory {
    Cipher,
    Public,
    Upgrade,
    Snapshot,
    Merge,
    All,
}

/// The threshold to reach (greater or equal), represented as a
/// mathematical fraction: numerator / denominator, in this order.
/// Both can be any value from 1 to 255. Each key's weight counts
/// relative to the sum of all weights, so a fraction above 1/1 is
/// type-safe but can never be reached. A zero in either field makes
/// the owning configuration invalid; it is rejected, never dropped.
pub type AuthThresholdFraction = (u8, u8);

/// Custom thresholds for different actions.
#[derive(PartialEq, Eq, Clone, Copy, Debug)]
pub enum AuthThreshold {
    /// Threshold required for a ciphered block.
    Cipher(AuthThresholdFraction),
    /// Threshold required for a public text block.
    Public(AuthThresholdFraction),
    /// Threshold required for a block that upgrades the permissions.
    Upgrade(AuthThresholdFraction),
    /// Threshold required for a snapshot block.
    Snapshot(AuthThresholdFraction),
    /// Threshold required for a merge block.
    Merge(AuthThresholdFraction),
    /// Threshold for all actions, primarily as a fallback.
    All(AuthThresholdFraction),
}

impl AuthThreshold {
    /// The category this rule applies to.
    pub open spec fn spec_category(self) -> ActionCategory {
        match self {
            AuthThreshold::Cipher(_) => ActionCategory::Cipher,
            AuthThreshold::Public(_) => ActionCategory::Public,
            AuthThreshold::Upgrade(_) => ActionCategory::Upgrade,
            AuthThreshold::Snapshot(_) => ActionCategory::Snapshot,
            AuthThreshold::Merge(_) => ActionCategory::Merge,
            AuthThreshold::All(_) => ActionCategory::All,
        }
    }

    /// The fraction this rule demands.
    pub open spec fn spec_fraction(self) -> AuthThresholdFraction {
        match self {
            AuthThreshold::Cipher(f) => f,
            AuthThreshold::Public(f) => f,
            AuthThreshold::Upgrade(f) => f,
            AuthThreshold::Snapshot(f) => f,
            AuthThreshold::Merge(f) => f,
            AuthThreshold::All(f) => f,
        }
    }

    /// The category this rule applies to.
    pub fn category(&self) -> (r: ActionCategory)
        ensures
            r == self.spec_category(),
    {
        match *self {
            AuthThreshold::Cipher(_) => ActionCategory::Cipher,
            AuthThreshold::Public(_) => ActionCategory::Public,
            AuthThreshold::Upgrade(_) => ActionCategory::Upgrade,
            AuthThreshold::Snapshot(_) => ActionCategory::Snapshot,
            AuthThreshold::Merge(_) => ActionCategory::Merge,
            AuthThreshold::All(_) => ActionCategory::All,
        }
    }

    /// The fraction this rule demands.
    pub fn fraction(&self) -> (r: AuthThresholdFraction)
        ensures
            r == self.spec_fraction(),
    {
        match *self {
            AuthThreshold::Cipher(f) => f,
            AuthThreshold::Public(f) => f,
            AuthThreshold::Upgrade(f) => f,
            AuthThreshold::Snapshot(f) => f,
            AuthThreshold::Merge(f) => f,
            AuthThreshold::All(f) => f,
        }
    }
}

/// Settings to sign a specific block: the authorization policy
/// active "as of" a point in the chain.
#[derive(PartialEq, Eq, Debug, Clone)]
pub struct SignSettings {
    /// A list of public keys and their respective weight; the weight
    /// counts as a ratio of the sum of all weights. Duplicate keys
    /// make the configuration invalid.
    pub weights: Vec<(MultiKey, u8)>,
    /// Specific thresholds for individual actions. The first rule
    /// whose category matches wins, else the first `All` rule, else
    /// a threshold of 1/1 is required.
    pub thresholds: Vec<AuthThreshold>,
}

/// Payload of a block: structured plaintext or opaque ciphertext.
/// The variant decides whether the `Public` or the `Cipher` threshold
/// governs a content-carrying block.
#[derive(PartialEq, Eq, Debug)]
pub enum Payload {
    Plain(Ztm<ActivityStreamEntity>),
    Cipher(Vec<u8>),
}

/// A block in the chain. Each variant's `id` is the digest of its
/// canonical byte encoding excluding the id field itself.
#[derive(PartialEq, Eq, Debug)]
pub enum Block {
    /// Starting block of any chain.
    Genesis {
        /// Hash over config + data + sign.
        id: Digest,
        /// The bootstrap policy; it governs this very block.
        config: SignSettings,
        /// Any extra payload.
        data: Payload,
        /// Signatures over config + data.
        sign: Vec<Signature>,
    },
    /// A regular content block: public content (requiring the
    /// `Public` threshold) or ciphered content (requiring `Cipher`).
    Regular {
        /// Hash over prev + data + sign.
        id: Digest,
        /// The previous block's id.
        prev: Digest,
        /// The content of this block.
        data: Payload,
        /// Signatures over prev + data, valid at `prev`.
        sign: Vec<Signature>,
    },
    /// Upgrade the chain configuration: set new keys or thresholds,
    /// effective strictly after this block.
    Upgrade {
        /// Hash over prev + config + sign.
        id: Digest,
        /// The previous block's id.
        prev: Digest,
        /// The new policy, valid for descendants of this block.
        config: SignSettings,
        /// Signatures over prev + config, valid at `prev`.
        sign: Vec<Signature>,
    },
    /// Merge two or more heads back into one chain, optionally with
    /// a payload and a configuration.
    Merge {
        /// Hash over parents + data + config + sign.
        id: Digest,
        /// The ids of the heads to merge; at least two.
        parents: Vec<Digest>,
        /// Optional payload merging the branches' content.
        data: Option<Payload>,
        /// Optional configuration valid from now on. Must be present
        /// if the branches ran upgrades independently since they
        /// diverged; then both the merge and the upgrade thresholds
        /// must be met.
        config: Option<SignSettings>,
        /// Signatures over parents + data + config.
        sign: Vec<Signature>,
    },
    /// A checkpoint of the chain state.
    Snapshot {
        /// Hash over prev + at + data + config + sign.
        id: Digest,
        /// The id of the previous snapshot, or of the genesis block
        /// if this is the first snapshot.
        prev: Digest,
        /// The block on the regular chain this snapshot was taken at.
        at: Digest,
        /// The cumulative diff since `prev`.
        data: Option<Payload>,
        /// The configuration active at `at`. Must be present, in its
        /// final form, if the configuration changed between the
        /// previous snapshot's anchor and `at`; peers reject the
        /// snapshot otherwise.
        config: Option<SignSettings>,
        /// Signatures over prev + at + data + config.
        sign: Vec<Signature>,
    },
}

impl Block {
    /// The claimed id of the block.
    pub open spec fn spec_id(self) -> Digest {
        match self {
            Block::Genesis { id, .. } => id,
            Block::Regular { id, .. } => id,
            Block::Upgrade { id, .. } => id,
            Block::Merge { id, .. } => id,
            Block::Snapshot { id, .. } => id,
        }
    }

    /// The claimed id of the block.
    pub fn id(&self) -> (r: &Digest)
        ensures
            *r == self.spec_id(),
    {
        match self {
            Block::Genesis { id, .. } => id,
            Block::Regular { id, .. } => id,
            Block::Upgrade { id, .. } => id,
            Block::Merge { id, .. } => id,
            Block::Snapshot { id, .. } => id,
        }
    }
}

/// Two digests are the same value: byte equality.
pub open spec fn digest_eq_spec(a: Digest, b: Digest) -> bool {
    a.bytes@ == b.bytes@
}

/// Two keys are the same value: same algorithm tag, same key bytes.
pub open spec fn key_eq_spec(a: MultiKey, b: MultiKey) -> bool {
    a.alg == b.alg && a.key@ == b.key@
}

/// Two threshold rules demand the same thing.
pub open spec fn threshold_eq_spec(a: AuthThreshold, b: AuthThreshold) -> bool {
    a.spec_category() == b.spec_category() && a.spec_fraction() == b.spec_fraction()
}

/// Two configurations are the same policy: equal weighted key lists
/// and equal threshold tables, order included.
pub open spec fn config_eq_spec(a: SignSettings, b: SignSettings) -> bool {
    &&& a.weights@.len() == b.weights@.len()
    &&& forall|i: int|
        0 <= i < a.weights@.len() ==> key_eq_spec(a.weights@[i].0, b.weights@[i].0)
            && a.weights@[i].1 == b.weights@[i].1
    &&& a.thresholds@.len() == b.thresholds@.len()
    &&& forall|i: int|
        0 <= i < a.thresholds@.len() ==> threshold_eq_spec(a.thresholds@[i], b.thresholds@[i])
}

/// Byte-vector equality, the base of all value comparisons here.
pub fn bytes_eq(a: &Vec<u8>, b: &Vec<u8>) -> (r: bool)
    ensures
        r == (a@ == b@),
{
    if a.len() != b.len() {
        assert(a@.len() != b@.len());
        return false;
    }
    let mut i: usize = 0;
    while i < a.len()
        invariant
            0 <= i <= a@.len(),
            a@.len() == b@.len(),
            forall|j: int| 0 <= j < i ==> a@[j] == b@[j],
        decreases a@.len() - i,
    {
        if a[i] != b[i] {
            assert(a@[i as int] != b@[i as int]);
            return false;
        }
        i += 1;
    }
    assert(a@ =~= b@);
    true
}

/// Digest equality as a verified decision.
pub fn digest_eq(a: &Digest, b: &Digest) -> (r: bool)
    ensures
        r == digest_eq_spec(*a, *b),
{
    bytes_eq(&a.bytes, &b.bytes)
}

/// Key equality as a verified decision.
pub fn key_eq(a: &MultiKey, b: &MultiKey) -> (r: bool)
    ensures
        r == key_eq_spec(*a, *b),
{
    let alg_same = match (a.alg, b.alg) {
        (KeyAlgo::Ed25519, KeyAlgo::Ed25519) => true,
        (KeyAlgo::Pgp, KeyAlgo::Pgp) => true,
        _ => false,
    };
    alg_same && bytes_eq(&a.key, &b.key)
}

/// Threshold-rule equality as a verified decision.
pub fn threshold_eq(a: &AuthThreshold, b: &AuthThreshold) -> (r: bool)
    ensures
        r == threshold_eq_spec(*a, *b),
{
    let ca = a.category();
    let cb = b.category();
    let cat_same = match (ca, cb) {
        (ActionCategory::Cipher, ActionCategory::Cipher) => true,
        (ActionCategory::Public, ActionCategory::Public) => true,
        (ActionCategory::Upgrade, ActionCategory::Upgrade) => true,
        (ActionCategory::Snapshot, ActionCategory::Snapshot) => true,
        (ActionCategory::Merge, ActionCategory::Merge) => true,
        (ActionCategory::All, ActionCategory::All) => true,
        _ => false,
    };
    let fa = a.fraction();
    let fb = b.fraction();
    cat_same && fa.0 == fb.0 && fa.1 == fb.1
}

/// Configuration equality as a verified decision.
pub fn config_eq(a: &SignSettings, b: &SignSettings) -> (r: bool)
    ensures
        r == config_eq_spec(*a, *b),
{
    if a.weights.len() != b.weights.len() || a.thresholds.len() != b.thresholds.len() {
        return false;
    }
    let mut i: usize = 0;
    while i < a.weights.len()
        invariant
            0 <= i <= a.weights@.len(),
            a.weights@.len() == b.weights@.len(),
            forall|j: int|
                0 <= j < i ==> key_eq_spec(a.weights@[j].0, b.weights@[j].0)
                    && a.weights@[j].1 == b.weights@[j].1,
        decreases a.weights@.len() - i,
    {
        if !key_eq(&a.weights[i].0, &b.weights[i].0) || a.weights[i].1 != b.weights[i].1 {
            return false;
        }
        i += 1;
    }
    let mut k: usize = 0;
    while k < a.thresholds.len()
        invariant
            0 <= k <= a.thresholds@.len(),
            a.thresholds@.len() == b.thresholds@.len(),
            forall|j: int| 0 <= j < k ==> threshold_eq_spec(a.thresholds@[j], b.thresholds@[j]),
        decreases a.thresholds@.len() - k,
    {
        if !threshold_eq(&a.thresholds[k], &b.thresholds[k]) {
            return false;
        }
        k += 1;
    }
    true
}

} // verus!
