//! The validation algorithm: whether a candidate block may extend
//! the chain, as a pure function of the candidate, its referenced
//! ancestors' configurations and the store contents.
//!
//! Cryptographic signature verification is the signature provider's
//! business, outside the core: the caller verifies each claimed
//! signature over the block's signed bytes (see `codec::signed_bytes`)
//! and hands the verdicts in, one boolean per signature. Everything
//! downstream of those verdicts is decided here, for every possible
//! verdict value.

use vstd::prelude::*;
use crate::protocol::{
    ActionCategory, Block, Digest, Payload, SignSettings, Signature, config_eq, config_eq_spec,
    digest_eq, digest_eq_spec, key_eq_spec,
};
use crate::codec::{compute_id, digest_of, hash_input_spec};
use crate::store::{
    ChainStore, config_at_spec, find_idx, has_digest, is_ancestor_spec, put_decision, store_wf,
};
use crate::threshold::{
    auth_weight, authorized_weight, config_valid, meets_threshold, meets_threshold_spec,
    validate_config,
};
use crate::ChainError;

verus! {

/// The action category a content-carrying block falls under.
pub open spec fn payload_category_spec(p: Payload) -> ActionCategory {
    match p {
        Payload::Cipher(_) => ActionCategory::Cipher,
        Payload::Plain(_) => ActionCategory::Public,
    }
}

/// The action category a content-carrying block falls under:
/// `Cipher` for ciphertext, `Public` for plaintext.
pub fn payload_category(p: &Payload) -> (r: ActionCategory)
    ensures
        r == payload_category_spec(*p),
{
    match p {
        Payload::Cipher(_) => ActionCategory::Cipher,
        Payload::Plain(_) => ActionCategory::Public,
    }
}

/// The claimed id equals the digest of the block's canonical bytes.
pub open spec fn hash_ok(b: Block) -> bool {
    b.spec_id().bytes@ == digest_of(hash_input_spec(b))
}

/// The signatures carry enough weight under `c` for category `cat`.
pub open spec fn weight_ok(
    c: SignSettings,
    cat: ActionCategory,
    sigs: Seq<Signature>,
    verdicts: Seq<bool>,
) -> bool {
    meets_threshold_spec(c, cat, auth_weight(c.weights@, sigs, verdicts))
}

/// How many signatures the block carries; the caller supplies one
/// verdict per signature.
pub open spec fn sig_len_spec(b: Block) -> nat {
    match b {
        Block::Genesis { sign, .. } => sign@.len(),
        Block::Regular { sign, .. } => sign@.len(),
        Block::Upgrade { sign, .. } => sign@.len(),
        Block::Merge { sign, .. } => sign@.len(),
        Block::Snapshot { sign, .. } => sign@.len(),
    }
}

/// Every listed parent digest is present in the store.
pub open spec fn all_parents_known(blocks: Seq<Block>, parents: Seq<Digest>) -> bool {
    forall|k: int| 0 <= k < parents.len() ==> has_digest(blocks, #[trigger] parents[k])
}

/// Every listed parent has a resolvable active configuration.
pub open spec fn parent_cfgs_known(blocks: Seq<Block>, parents: Seq<Digest>) -> bool {
    forall|k: int| 0 <= k < parents.len() ==> (config_at_spec(blocks, #[trigger] parents[k]) is Some)
}

/// The configuration active at parent `k`.
pub open spec fn parent_cfg(blocks: Seq<Block>, parents: Seq<Digest>, k: int) -> SignSettings {
    config_at_spec(blocks, parents[k])->Some_0
}

/// The parents' active configurations are not all the same policy:
/// the branches ran upgrades independently since they diverged.
pub open spec fn cfgs_diverged(blocks: Seq<Block>, parents: Seq<Digest>) -> bool {
    exists|a: int, b: int|
        0 <= a < parents.len() && 0 <= b < parents.len() && !config_eq_spec(
            parent_cfg(blocks, parents, a),
            parent_cfg(blocks, parents, b),
        )
}

/// The merge threshold is met independently under every parent's
/// own active configuration.
pub open spec fn all_merge_thresholds(
    blocks: Seq<Block>,
    parents: Seq<Digest>,
    sigs: Seq<Signature>,
    verdicts: Seq<bool>,
) -> bool {
    forall|k: int|
        0 <= k < parents.len() ==> weight_ok(
            #[trigger] parent_cfg(blocks, parents, k),
            ActionCategory::Merge,
            sigs,
            verdicts,
        )
}

/// The upgrade threshold is met under at least one parent's active
/// configuration.
pub open spec fn some_upgrade_threshold(
    blocks: Seq<Block>,
    parents: Seq<Digest>,
    sigs: Seq<Signature>,
    verdicts: Seq<bool>,
) -> bool {
    exists|k: int|
        0 <= k < parents.len() && weight_ok(
            #[trigger] parent_cfg(blocks, parents, k),
            ActionCategory::Upgrade,
            sigs,
            verdicts,
        )
}

/// What a merge block must satisfy, in order: at least two parents,
/// all present; the claimed id; resolvable parent configurations; a
/// supplied configuration whenever the branches diverged, itself
/// valid; the merge threshold under every parent's configuration;
/// and, when the configuration changes across diverged branches,
/// the upgrade threshold under at least one parent's configuration.
pub open spec fn merge_decision(
    blocks: Seq<Block>,
    b: Block,
    parents: Seq<Digest>,
    cfg: Option<SignSettings>,
    sigs: Seq<Signature>,
    verdicts: Seq<bool>,
) -> Result<(), ChainError> {
    if parents.len() < 2 {
        Result::Err(ChainError::MalformedBlock)
    } else if !all_parents_known(blocks, parents) {
        Result::Err(ChainError::UnknownParent)
    } else if !hash_ok(b) {
        Result::Err(ChainError::InvalidHash)
    } else if !parent_cfgs_known(blocks, parents) {
        Result::Err(ChainError::InvalidConfig)
    } else if cfgs_diverged(blocks, parents) && cfg is None {
        Result::Err(ChainError::MissingConfig)
    } else if cfg is Some && !config_valid(cfg->Some_0) {
        Result::Err(ChainError::InvalidConfig)
    } else if !all_merge_thresholds(blocks, parents, sigs, verdicts) {
        Result::Err(ChainError::ThresholdNotMet)
    } else if cfgs_diverged(blocks, parents) && cfg is Some && !some_upgrade_threshold(
        blocks,
        parents,
        sigs,
        verdicts,
    ) {
        Result::Err(ChainError::ThresholdNotMet)
    } else {
        Result::Ok(())
    }
}

/// The digest a snapshot's chain segment starts at: the anchor of
/// the previous snapshot, or the genesis itself.
pub open spec fn snap_base(blocks: Seq<Block>, prev: Digest) -> Digest {
    match blocks[find_idx(blocks, prev)] {
        Block::Snapshot { at, .. } => at,
        _ => prev,
    }
}

/// What a snapshot block must satisfy, in order: a stored `prev`
/// that is a snapshot or the genesis, a stored `at` descending from
/// `prev`'s own anchor, the claimed id, a carried configuration
/// equal to the one active at `at` whenever the configuration
/// changed since the previous snapshot (and whenever one is
/// carried), and the snapshot threshold under the configuration
/// active at `prev`.
pub open spec fn snapshot_decision(
    blocks: Seq<Block>,
    b: Block,
    prev: Digest,
    at: Digest,
    cfg: Option<SignSettings>,
    sigs: Seq<Signature>,
    verdicts: Seq<bool>,
) -> Result<(), ChainError> {
    if !has_digest(blocks, prev) || !has_digest(blocks, at) {
        Result::Err(ChainError::UnknownParent)
    } else if !(blocks[find_idx(blocks, prev)] is Snapshot || blocks[find_idx(blocks, prev)]
        is Genesis) {
        Result::Err(ChainError::MalformedBlock)
    } else if !is_ancestor_spec(blocks, snap_base(blocks, prev), at) {
        Result::Err(ChainError::MalformedBlock)
    } else if !hash_ok(b) {
        Result::Err(ChainError::InvalidHash)
    } else {
        match (config_at_spec(blocks, prev), config_at_spec(blocks, at)) {
            (Option::Some(c_prev), Option::Some(c_at)) => if cfg is Some && !config_eq_spec(
                cfg->Some_0,
                c_at,
            ) {
                Result::Err(ChainError::InvalidConfig)
            } else if cfg is None && !config_eq_spec(c_prev, c_at) {
                Result::Err(ChainError::InvalidConfig)
            } else if !weight_ok(c_prev, ActionCategory::Snapshot, sigs, verdicts) {
                Result::Err(ChainError::ThresholdNotMet)
            } else {
                Result::Ok(())
            },
            _ => Result::Err(ChainError::InvalidConfig),
        }
    }
}

/// What the validator decides for a candidate block, per variant.
pub open spec fn validate_spec(blocks: Seq<Block>, b: Block, verdicts: Seq<bool>) -> Result<
    (),
    ChainError,
> {
    match b {
        Block::Genesis { config, data, sign, .. } => {
            if !hash_ok(b) {
                Result::Err(ChainError::InvalidHash)
            } else if !config_valid(config) {
                Result::Err(ChainError::InvalidConfig)
            } else if !weight_ok(config, payload_category_spec(data), sign@, verdicts) {
                Result::Err(ChainError::ThresholdNotMet)
            } else {
                Result::Ok(())
            }
        },
        Block::Regular { prev, data, sign, .. } => {
            if !has_digest(blocks, prev) {
                Result::Err(ChainError::UnknownParent)
            } else if !hash_ok(b) {
                Result::Err(ChainError::InvalidHash)
            } else {
                match config_at_spec(blocks, prev) {
                    Option::Some(c) => if !weight_ok(
                        c,
                        payload_category_spec(data),
                        sign@,
                        verdicts,
                    ) {
                        Result::Err(ChainError::ThresholdNotMet)
                    } else {
                        Result::Ok(())
                    },
                    Option::None => Result::Err(ChainError::InvalidConfig),
                }
            }
        },
        Block::Upgrade { prev, config, sign, .. } => {
            if !has_digest(blocks, prev) {
                Result::Err(ChainError::UnknownParent)
            } else if !hash_ok(b) {
                Result::Err(ChainError::InvalidHash)
            } else if !config_valid(config) {
                Result::Err(ChainError::InvalidConfig)
            } else {
                match config_at_spec(blocks, prev) {
                    Option::Some(old_c) => if !weight_ok(
                        old_c,
                        ActionCategory::Upgrade,
                        sign@,
                        verdicts,
                    ) {
                        Result::Err(ChainError::ThresholdNotMet)
                    } else {
                        Result::Ok(())
                    },
                    Option::None => Result::Err(ChainError::InvalidConfig),
                }
            }
        },
        Block::Merge { parents, config, sign, .. } => merge_decision(
            blocks,
            b,
            parents@,
            config,
            sign@,
            verdicts,
        ),
        Block::Snapshot { prev, at, config, sign, .. } => snapshot_decision(
            blocks,
            b,
            prev,
            at,
            config,
            sign@,
            verdicts,
        ),
    }
}

/// Policy equality carries over: two configurations equal to a
/// common one are equal to each other.
proof fn lemma_config_eq_trans(a: SignSettings, b: SignSettings, c: SignSettings)
    requires
        config_eq_spec(a, b),
        config_eq_spec(a, c),
    ensures
        config_eq_spec(b, c),
{
    assert forall|i: int|
        0 <= i < b.weights@.len() implies key_eq_spec(b.weights@[i].0, c.weights@[i].0)
        && b.weights@[i].1 == c.weights@[i].1 by {
        assert(key_eq_spec(a.weights@[i].0, b.weights@[i].0));
        assert(key_eq_spec(a.weights@[i].0, c.weights@[i].0));
    }
}

/// A merge across branches whose active configurations diverged
/// (each branch ran its own upgrade since the fork), submitted
/// without a configuration, is rejected with `MissingConfig`,
/// whatever the signatures say.
pub proof fn lemma_merge_divergent_without_config(blocks: Seq<Block>, b: Block, verdicts: Seq<bool>)
    requires
        b is Merge,
        match b {
            Block::Merge { parents, config, .. } => {
                &&& parents@.len() >= 2
                &&& all_parents_known(blocks, parents@)
                &&& hash_ok(b)
                &&& parent_cfgs_known(blocks, parents@)
                &&& cfgs_diverged(blocks, parents@)
                &&& config is None
            },
            _ => false,
        },
    ensures
        validate_spec(blocks, b, verdicts) == Result::<(), ChainError>::Err(
            ChainError::MissingConfig,
        ),
{
}

/// A snapshot that omits, or mis-states, a configuration change
/// that happened between the previous snapshot's anchor and `at` is
/// rejected with `InvalidConfig`, whatever the signatures say.
pub proof fn lemma_snapshot_stale_config_rejected(blocks: Seq<Block>, b: Block, verdicts: Seq<bool>)
    requires
        b is Snapshot,
        match b {
            Block::Snapshot { prev, at, config, .. } => {
                &&& has_digest(blocks, prev)
                &&& has_digest(blocks, at)
                &&& (blocks[find_idx(blocks, prev)] is Snapshot || blocks[find_idx(blocks, prev)]
                    is Genesis)
                &&& is_ancestor_spec(blocks, snap_base(blocks, prev), at)
                &&& hash_ok(b)
                &&& config_at_spec(blocks, prev) is Some
                &&& config_at_spec(blocks, at) is Some
                &&& !config_eq_spec(
                    config_at_spec(blocks, prev)->Some_0,
                    config_at_spec(blocks, at)->Some_0,
                )
                &&& match config {
                    Option::None => true,
                    Option::Some(c) => !config_eq_spec(c, config_at_spec(blocks, at)->Some_0),
                }
            },
            _ => false,
        },
    ensures
        validate_spec(blocks, b, verdicts) == Result::<(), ChainError>::Err(
            ChainError::InvalidConfig,
        ),
{
}

/// Whether every listed parent is stored.
fn check_all_parents(store: &ChainStore, parents: &Vec<Digest>) -> (r: bool)
    ensures
        r == all_parents_known(store.blocks@, parents@),
{
    let mut k: usize = 0;
    while k < parents.len()
        invariant
            0 <= k <= parents@.len(),
            forall|x: int| 0 <= x < k ==> has_digest(store.blocks@, #[trigger] parents@[x]),
        decreases parents@.len() - k,
    {
        if store.find(&parents[k]).is_none() {
            return false;
        }
        k += 1;
    }
    true
}

/// Whether every listed parent's active configuration resolves.
fn check_parent_cfgs(store: &ChainStore, parents: &Vec<Digest>) -> (r: bool)
    ensures
        r == parent_cfgs_known(store.blocks@, parents@),
{
    let mut k: usize = 0;
    while k < parents.len()
        invariant
            0 <= k <= parents@.len(),
            forall|x: int|
                0 <= x < k ==> (config_at_spec(store.blocks@, #[trigger] parents@[x]) is Some),
        decreases parents@.len() - k,
    {
        if store.config_at(&parents[k]).is_none() {
            return false;
        }
        k += 1;
    }
    true
}

/// Whether the parents' active configurations diverged, decided by
/// comparing each against the first.
fn check_diverged(store: &ChainStore, parents: &Vec<Digest>) -> (r: bool)
    requires
        parents@.len() > 0,
        parent_cfgs_known(store.blocks@, parents@),
    ensures
        r == cfgs_diverged(store.blocks@, parents@),
{
    let c0 = match store.config_at(&parents[0]) {
        Option::Some(c) => c,
        Option::None => {
            proof {
                assert(config_at_spec(store.blocks@, parents@[0]) is Some);
            }
            return false;
        },
    };
    let mut k: usize = 1;
    while k < parents.len()
        invariant
            1 <= k <= parents@.len(),
            parent_cfgs_known(store.blocks@, parents@),
            *c0 == parent_cfg(store.blocks@, parents@, 0),
            forall|x: int|
                0 <= x < k ==> config_eq_spec(
                    parent_cfg(store.blocks@, parents@, 0),
                    #[trigger] parent_cfg(store.blocks@, parents@, x),
                ),
        decreases parents@.len() - k,
    {
        let ck = match store.config_at(&parents[k]) {
            Option::Some(c) => c,
            Option::None => {
                proof {
                    assert(config_at_spec(store.blocks@, parents@[k as int]) is Some);
                }
                return false;
            },
        };
        if !config_eq(c0, ck) {
            proof {
                assert(!config_eq_spec(
                    parent_cfg(store.blocks@, parents@, 0),
                    parent_cfg(store.blocks@, parents@, k as int),
                ));
            }
            return true;
        }
        k += 1;
    }
    proof {
        assert forall|a: int, b: int|
            0 <= a < parents@.len() && 0 <= b < parents@.len() implies config_eq_spec(
            parent_cfg(store.blocks@, parents@, a),
            parent_cfg(store.blocks@, parents@, b),
        ) by {
            lemma_config_eq_trans(
                parent_cfg(store.blocks@, parents@, 0),
                parent_cfg(store.blocks@, parents@, a),
                parent_cfg(store.blocks@, parents@, b),
            );
        }
    }
    false
}

/// Whether the merge threshold is met under every parent's own
/// configuration.
fn check_all_merge(
    store: &ChainStore,
    parents: &Vec<Digest>,
    sigs: &Vec<Signature>,
    verdicts: &Vec<bool>,
) -> (r: bool)
    requires
        parent_cfgs_known(store.blocks@, parents@),
        sigs@.len() == verdicts@.len(),
    ensures
        r == all_merge_thresholds(store.blocks@, parents@, sigs@, verdicts@),
{
    let mut k: usize = 0;
    while k < parents.len()
        invariant
            0 <= k <= parents@.len(),
            parent_cfgs_known(store.blocks@, parents@),
            sigs@.len() == verdicts@.len(),
            forall|x: int|
                0 <= x < k ==> weight_ok(
                    #[trigger] parent_cfg(store.blocks@, parents@, x),
                    ActionCategory::Merge,
                    sigs@,
                    verdicts@,
                ),
        decreases parents@.len() - k,
    {
        let ck = match store.config_at(&parents[k]) {
            Option::Some(c) => c,
            Option::None => {
                proof {
                    assert(config_at_spec(store.blocks@, parents@[k as int]) is Some);
                }
                return false;
            },
        };
        let w = authorized_weight(ck, sigs, verdicts);
        if !meets_threshold(ck, ActionCategory::Merge, w) {
            proof {
                assert(!weight_ok(
                    parent_cfg(store.blocks@, parents@, k as int),
                    ActionCategory::Merge,
                    sigs@,
                    verdicts@,
                ));
            }
            return false;
        }
        k += 1;
    }
    true
}

/// Whether the upgrade threshold is met under at least one parent's
/// configuration.
fn check_some_upgrade(
    store: &ChainStore,
    parents: &Vec<Digest>,
    sigs: &Vec<Signature>,
    verdicts: &Vec<bool>,
) -> (r: bool)
    requires
        parent_cfgs_known(store.blocks@, parents@),
        sigs@.len() == verdicts@.len(),
    ensures
        r == some_upgrade_threshold(store.blocks@, parents@, sigs@, verdicts@),
{
    let mut k: usize = 0;
    while k < parents.len()
        invariant
            0 <= k <= parents@.len(),
            parent_cfgs_known(store.blocks@, parents@),
            sigs@.len() == verdicts@.len(),
            forall|x: int|
                0 <= x < k ==> !weight_ok(
                    #[trigger] parent_cfg(store.blocks@, parents@, x),
                    ActionCategory::Upgrade,
                    sigs@,
                    verdicts@,
                ),
        decreases parents@.len() - k,
    {
        let ck = match store.config_at(&parents[k]) {
            Option::Some(c) => c,
            Option::None => {
                proof {
                    assert(config_at_spec(store.blocks@, parents@[k as int]) is Some);
                }
                return false;
            },
        };
        let w = authorized_weight(ck, sigs, verdicts);
        if meets_threshold(ck, ActionCategory::Upgrade, w) {
            proof {
                assert(weight_ok(
                    parent_cfg(store.blocks@, parents@, k as int),
                    ActionCategory::Upgrade,
                    sigs@,
                    verdicts@,
                ));
            }
            return true;
        }
        k += 1;
    }
    false
}

/// Decides whether the candidate block may extend the chain:
/// recomputes its digest, resolves the governing configurations,
/// sums the weight the verdicts grant, and checks the threshold of
/// the block's action category per variant. `verdicts[i]` is the
/// signature provider's verdict for the block's `i`-th signature
/// over its signed bytes. Rejections never touch the store.
pub fn validate(store: &ChainStore, b: &Block, verdicts: &Vec<bool>) -> (r: Result<(), ChainError>)
    requires
        verdicts@.len() == sig_len_spec(*b),
    ensures
        r == validate_spec(store.blocks@, *b, verdicts@),
{
    let recomputed = compute_id(b);
    let id_ok = digest_eq(&recomputed, b.id());
    match b {
        Block::Genesis { config, data, sign, .. } => {
            if !id_ok {
                return Result::Err(ChainError::InvalidHash);
            }
            if validate_config(config).is_err() {
                return Result::Err(ChainError::InvalidConfig);
            }
            let w = authorized_weight(config, sign, verdicts);
            if !meets_threshold(config, payload_category(data), w) {
                return Result::Err(ChainError::ThresholdNotMet);
            }
            Result::Ok(())
        },
        Block::Regular { prev, data, sign, .. } => {
            if store.find(prev).is_none() {
                return Result::Err(ChainError::UnknownParent);
            }
            if !id_ok {
                return Result::Err(ChainError::InvalidHash);
            }
            match store.config_at(prev) {
                Option::Some(c) => {
                    let w = authorized_weight(c, sign, verdicts);
                    if !meets_threshold(c, payload_category(data), w) {
                        return Result::Err(ChainError::ThresholdNotMet);
                    }
                    Result::Ok(())
                },
                Option::None => Result::Err(ChainError::InvalidConfig),
            }
        },
        Block::Upgrade { prev, config, sign, .. } => {
            if store.find(prev).is_none() {
                return Result::Err(ChainError::UnknownParent);
            }
            if !id_ok {
                return Result::Err(ChainError::InvalidHash);
            }
            if validate_config(config).is_err() {
                return Result::Err(ChainError::InvalidConfig);
            }
            match store.config_at(prev) {
                Option::Some(old_c) => {
                    let w = authorized_weight(old_c, sign, verdicts);
                    if !meets_threshold(old_c, ActionCategory::Upgrade, w) {
                        return Result::Err(ChainError::ThresholdNotMet);
                    }
                    Result::Ok(())
                },
                Option::None => Result::Err(ChainError::InvalidConfig),
            }
        },
        Block::Merge { parents, config, sign, .. } => {
            if parents.len() < 2 {
                return Result::Err(ChainError::MalformedBlock);
            }
            if !check_all_parents(store, parents) {
                return Result::Err(ChainError::UnknownParent);
            }
            if !id_ok {
                return Result::Err(ChainError::InvalidHash);
            }
            if !check_parent_cfgs(store, parents) {
                return Result::Err(ChainError::InvalidConfig);
            }
            let div = check_diverged(store, parents);
            if div && config.is_none() {
                return Result::Err(ChainError::MissingConfig);
            }
            if let Option::Some(c) = config {
                if validate_config(c).is_err() {
                    return Result::Err(ChainError::InvalidConfig);
                }
            }
            if !check_all_merge(store, parents, sign, verdicts) {
                return Result::Err(ChainError::ThresholdNotMet);
            }
            if div && config.is_some() {
                if !check_some_upgrade(store, parents, sign, verdicts) {
                    return Result::Err(ChainError::ThresholdNotMet);
                }
            }
            Result::Ok(())
        },
        Block::Snapshot { prev, at, config, sign, .. } => {
            let p_i = match store.find(prev) {
                Option::Some(i) => i,
                Option::None => {
                    return Result::Err(ChainError::UnknownParent);
                },
            };
            if store.find(at).is_none() {
                return Result::Err(ChainError::UnknownParent);
            }
            let base: &Digest = match &store.blocks[p_i] {
                Block::Snapshot { at: prev_at, .. } => prev_at,
                Block::Genesis { .. } => prev,
                _ => {
                    return Result::Err(ChainError::MalformedBlock);
                },
            };
            proof {
                assert(*base == snap_base(store.blocks@, *prev));
            }
            if !store.is_ancestor(base, at) {
                return Result::Err(ChainError::MalformedBlock);
            }
            if !id_ok {
                return Result::Err(ChainError::InvalidHash);
            }
            let c_prev = match store.config_at(prev) {
                Option::Some(c) => c,
                Option::None => {
                    return Result::Err(ChainError::InvalidConfig);
                },
            };
            let c_at = match store.config_at(at) {
                Option::Some(c) => c,
                Option::None => {
                    return Result::Err(ChainError::InvalidConfig);
                },
            };
            match config {
                Option::Some(c) => {
                    if !config_eq(c, c_at) {
                        return Result::Err(ChainError::InvalidConfig);
                    }
                },
                Option::None => {
                    if !config_eq(c_prev, c_at) {
                        return Result::Err(ChainError::InvalidConfig);
                    }
                },
            }
            let w = authorized_weight(c_prev, sign, verdicts);
            if !meets_threshold(c_prev, ActionCategory::Snapshot, w) {
                return Result::Err(ChainError::ThresholdNotMet);
            }
            Result::Ok(())
        },
    }
}

/// Validates the candidate and, if it is admitted, appends it:
/// rejection leaves the store untouched; a byte-identical
/// resubmission remains a no-op.
pub fn submit(store: &mut ChainStore, b: Block, verdicts: &Vec<bool>) -> (r: Result<
    bool,
    ChainError,
>)
    requires
        store_wf(old(store).blocks@),
        verdicts@.len() == sig_len_spec(b),
    ensures
        store_wf(final(store).blocks@),
        match r {
            Result::Ok(admitted) => validate_spec(old(store).blocks@, b, verdicts@) is Ok
                && put_decision(old(store).blocks@, b) == Result::<bool, ChainError>::Ok(admitted)
                && final(store).blocks@ == if admitted {
                old(store).blocks@.push(b)
            } else {
                old(store).blocks@
            },
            Result::Err(e) => final(store).blocks@ == old(store).blocks@ && (validate_spec(
                old(store).blocks@,
                b,
                verdicts@,
            ) == Result::<(), ChainError>::Err(e) || put_decision(old(store).blocks@, b)
                == Result::<bool, ChainError>::Err(e)),
        },
{
    match validate(store, &b, verdicts) {
        Result::Ok(()) => store.put_if_absent(b),
        Result::Err(e) => Result::Err(e),
    }
}

} // verus!
