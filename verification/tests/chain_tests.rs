use sigchain::as_types::Ztm;
use sigchain::codec::{compute_id, hash_input_bytes, signed_bytes};
use sigchain::protocol::{
    AuthThreshold, Block, Digest, KeyAlgo, MultiKey, Payload, SignSettings, Signature,
};
use sigchain::store::ChainStore;
use sigchain::validator::{submit, validate};
use sigchain::ChainError;

fn key(tag: u8) -> MultiKey {
    MultiKey { alg: KeyAlgo::Ed25519, key: vec![tag; 4] }
}

fn sig_by(tag: u8) -> Signature {
    Signature { key: key(tag), sig: vec![0xAA, tag] }
}

fn cfg_single(tag: u8) -> SignSettings {
    SignSettings { weights: vec![(key(tag), 1)], thresholds: vec![] }
}

fn with_id(b: Block) -> Block {
    let id = compute_id(&b);
    match b {
        Block::Genesis { config, data, sign, .. } => Block::Genesis { id, config, data, sign },
        Block::Regular { prev, data, sign, .. } => Block::Regular { id, prev, data, sign },
        Block::Upgrade { prev, config, sign, .. } => Block::Upgrade { id, prev, config, sign },
        Block::Merge { parents, data, config, sign, .. } => {
            Block::Merge { id, parents, data, config, sign }
        }
        Block::Snapshot { prev, at, data, config, sign, .. } => {
            Block::Snapshot { id, prev, at, data, config, sign }
        }
    }
}

fn dummy_id() -> Digest {
    Digest { bytes: vec![] }
}

fn genesis(cfg: SignSettings, signer: u8) -> Block {
    with_id(Block::Genesis {
        id: dummy_id(),
        config: cfg,
        data: Payload::Plain(Ztm::Zero),
        sign: vec![sig_by(signer)],
    })
}

fn regular(prev: &Digest, body: &[u8], signer: u8) -> Block {
    with_id(Block::Regular {
        id: dummy_id(),
        prev: prev.clone(),
        data: Payload::Cipher(body.to_vec()),
        sign: vec![sig_by(signer)],
    })
}

fn upgrade(prev: &Digest, cfg: SignSettings, signer: u8) -> Block {
    with_id(Block::Upgrade { id: dummy_id(), prev: prev.clone(), config: cfg, sign: vec![sig_by(signer)] })
}

fn block_id(b: &Block) -> Digest {
    match b {
        Block::Genesis { id, .. } => id.clone(),
        Block::Regular { id, .. } => id.clone(),
        Block::Upgrade { id, .. } => id.clone(),
        Block::Merge { id, .. } => id.clone(),
        Block::Snapshot { id, .. } => id.clone(),
    }
}

#[test]
fn genesis_is_admitted_and_resubmission_is_a_noop() {
    let mut store = ChainStore::new();
    let g = genesis(cfg_single(1), 1);
    let g_again = genesis(cfg_single(1), 1);
    assert_eq!(submit(&mut store, g, &vec![true]), Ok(true));
    // Identical bytes a second time: a no-op, not an error.
    assert_eq!(submit(&mut store, g_again, &vec![true]), Ok(false));
    assert_eq!(store.blocks.len(), 1);
}

#[test]
fn colliding_digest_with_different_bytes_is_fatal() {
    let mut store = ChainStore::new();
    let g = genesis(cfg_single(1), 1);
    let gid = block_id(&g);
    assert_eq!(submit(&mut store, g, &vec![true]), Ok(true));
    // Same claimed digest over different canonical bytes: only a
    // hash collision or corruption could produce this.
    let impostor = Block::Regular {
        id: gid.clone(),
        prev: gid,
        data: Payload::Cipher(vec![1, 2, 3]),
        sign: vec![],
    };
    assert_eq!(store.put_if_absent(impostor), Err(ChainError::DuplicateBlock));
    assert_eq!(store.blocks.len(), 1);
}

#[test]
fn second_distinct_genesis_is_refused() {
    let mut store = ChainStore::new();
    assert_eq!(submit(&mut store, genesis(cfg_single(1), 1), &vec![true]), Ok(true));
    let other = genesis(cfg_single(2), 2);
    assert_eq!(store.put_if_absent(other), Err(ChainError::MalformedBlock));
}

#[test]
fn wrong_id_is_rejected_as_invalid_hash() {
    let store = ChainStore::new();
    let g = match genesis(cfg_single(1), 1) {
        Block::Genesis { config, data, sign, .. } => Block::Genesis {
            id: Digest { bytes: vec![0xFF; 34] },
            config,
            data,
            sign,
        },
        _ => unreachable!(),
    };
    assert_eq!(validate(&store, &g, &vec![true]), Err(ChainError::InvalidHash));
}

#[test]
fn unknown_parent_is_an_immediate_rejection() {
    let store = ChainStore::new();
    let orphan = regular(&Digest { bytes: vec![7; 34] }, b"data", 1);
    assert_eq!(validate(&store, &orphan, &vec![true]), Err(ChainError::UnknownParent));
}

#[test]
fn genesis_without_enough_weight_is_rejected() {
    let store = ChainStore::new();
    // Signed by a key outside the genesis key set: weight 0 < 1/1.
    let g = genesis(cfg_single(1), 9);
    assert_eq!(validate(&store, &g, &vec![true]), Err(ChainError::ThresholdNotMet));
    // Signed by the right key but the signature failed verification.
    let g2 = genesis(cfg_single(1), 1);
    assert_eq!(validate(&store, &g2, &vec![false]), Err(ChainError::ThresholdNotMet));
}

#[test]
fn genesis_with_zero_fraction_config_is_rejected() {
    let store = ChainStore::new();
    let bad = SignSettings {
        weights: vec![(key(1), 1)],
        thresholds: vec![AuthThreshold::Public((0, 1))],
    };
    let g = genesis(bad, 1);
    assert_eq!(validate(&store, &g, &vec![true]), Err(ChainError::InvalidConfig));
}

#[test]
fn regular_blocks_extend_under_the_active_config() {
    let mut store = ChainStore::new();
    let g = genesis(cfg_single(1), 1);
    let gid = block_id(&g);
    assert_eq!(submit(&mut store, g, &vec![true]), Ok(true));
    let r = regular(&gid, b"hello", 1);
    assert_eq!(submit(&mut store, r, &vec![true]), Ok(true));
    // A signer outside the active key set carries no weight.
    let r2 = regular(&gid, b"world", 9);
    assert_eq!(
        submit(&mut store, r2, &vec![true]),
        Err(ChainError::ThresholdNotMet)
    );
}

#[test]
fn upgrade_installs_the_new_config_for_descendants() {
    let mut store = ChainStore::new();
    let g = genesis(cfg_single(1), 1);
    let gid = block_id(&g);
    assert_eq!(submit(&mut store, g, &vec![true]), Ok(true));
    // The upgrade itself is signed under the old config.
    let u = upgrade(&gid, cfg_single(2), 1);
    let uid = block_id(&u);
    assert_eq!(submit(&mut store, u, &vec![true]), Ok(true));
    let c = store.config_at(&uid).expect("config resolves");
    assert_eq!(c.weights[0].0.key, vec![2; 4]);
    // Children sign under the new config, not the old one.
    let r_new = regular(&uid, b"post", 2);
    assert_eq!(submit(&mut store, r_new, &vec![true]), Ok(true));
    let r_old = regular(&uid, b"stale", 1);
    assert_eq!(
        submit(&mut store, r_old, &vec![true]),
        Err(ChainError::ThresholdNotMet)
    );
}

#[test]
fn merge_of_agreeing_branches_needs_no_config() {
    let mut store = ChainStore::new();
    let g = genesis(cfg_single(1), 1);
    let gid = block_id(&g);
    assert_eq!(submit(&mut store, g, &vec![true]), Ok(true));
    let r1 = regular(&gid, b"left", 1);
    let r2 = regular(&gid, b"right", 1);
    let (i1, i2) = (block_id(&r1), block_id(&r2));
    assert_eq!(submit(&mut store, r1, &vec![true]), Ok(true));
    assert_eq!(submit(&mut store, r2, &vec![true]), Ok(true));
    let m = with_id(Block::Merge {
        id: dummy_id(),
        parents: vec![i1, i2],
        data: None,
        config: None,
        sign: vec![sig_by(1)],
    });
    assert_eq!(submit(&mut store, m, &vec![true]), Ok(true));
}

#[test]
fn merge_across_divergent_upgrades_without_config_is_rejected() {
    let mut store = ChainStore::new();
    let g = genesis(cfg_single(1), 1);
    let gid = block_id(&g);
    assert_eq!(submit(&mut store, g, &vec![true]), Ok(true));
    // Each branch ran its own upgrade since the fork.
    let u1 = upgrade(&gid, cfg_single(2), 1);
    let u2 = upgrade(&gid, cfg_single(3), 1);
    let (i1, i2) = (block_id(&u1), block_id(&u2));
    assert_eq!(submit(&mut store, u1, &vec![true]), Ok(true));
    assert_eq!(submit(&mut store, u2, &vec![true]), Ok(true));
    let m = with_id(Block::Merge {
        id: dummy_id(),
        parents: vec![i1.clone(), i2.clone()],
        data: None,
        config: None,
        sign: vec![sig_by(2), sig_by(3)],
    });
    assert_eq!(
        validate(&store, &m, &vec![true, true]),
        Err(ChainError::MissingConfig)
    );
    // With the config supplied, both the per-parent merge thresholds
    // and the upgrade threshold under some parent must hold.
    let m2 = with_id(Block::Merge {
        id: dummy_id(),
        parents: vec![i1, i2],
        data: None,
        config: Some(cfg_single(2)),
        sign: vec![sig_by(2), sig_by(3)],
    });
    assert_eq!(submit(&mut store, m2, &vec![true, true]), Ok(true));
}

#[test]
fn merge_with_one_parent_is_malformed() {
    let mut store = ChainStore::new();
    let g = genesis(cfg_single(1), 1);
    let gid = block_id(&g);
    assert_eq!(submit(&mut store, g, &vec![true]), Ok(true));
    let m = with_id(Block::Merge {
        id: dummy_id(),
        parents: vec![gid],
        data: None,
        config: None,
        sign: vec![sig_by(1)],
    });
    assert_eq!(validate(&store, &m, &vec![true]), Err(ChainError::MalformedBlock));
}

#[test]
fn snapshot_must_carry_the_config_change_it_spans() {
    let mut store = ChainStore::new();
    let g = genesis(cfg_single(1), 1);
    let gid = block_id(&g);
    assert_eq!(submit(&mut store, g, &vec![true]), Ok(true));
    let u = upgrade(&gid, cfg_single(2), 1);
    let uid = block_id(&u);
    assert_eq!(submit(&mut store, u, &vec![true]), Ok(true));
    let r = regular(&uid, b"content", 2);
    let rid = block_id(&r);
    assert_eq!(submit(&mut store, r, &vec![true]), Ok(true));
    // An upgrade changed the config between the genesis anchor and
    // `at`: a snapshot that omits it is rejected.
    let snap_none = with_id(Block::Snapshot {
        id: dummy_id(),
        prev: gid.clone(),
        at: rid.clone(),
        data: None,
        config: None,
        sign: vec![sig_by(1)],
    });
    assert_eq!(
        validate(&store, &snap_none, &vec![true]),
        Err(ChainError::InvalidConfig)
    );
    // One that mis-states it is rejected the same way.
    let snap_stale = with_id(Block::Snapshot {
        id: dummy_id(),
        prev: gid.clone(),
        at: rid.clone(),
        data: None,
        config: Some(cfg_single(1)),
        sign: vec![sig_by(1)],
    });
    assert_eq!(
        validate(&store, &snap_stale, &vec![true]),
        Err(ChainError::InvalidConfig)
    );
    // Carrying the config in its final form, signed under the config
    // active at `prev`, it is admitted.
    let snap_ok = with_id(Block::Snapshot {
        id: dummy_id(),
        prev: gid,
        at: rid,
        data: None,
        config: Some(cfg_single(2)),
        sign: vec![sig_by(1)],
    });
    assert_eq!(submit(&mut store, snap_ok, &vec![true]), Ok(true));
}

#[test]
fn snapshot_anchored_off_the_chain_is_malformed() {
    let mut store = ChainStore::new();
    let g = genesis(cfg_single(1), 1);
    let gid = block_id(&g);
    assert_eq!(submit(&mut store, g, &vec![true]), Ok(true));
    let r = regular(&gid, b"body", 1);
    let rid = block_id(&r);
    assert_eq!(submit(&mut store, r, &vec![true]), Ok(true));
    // `prev` must be a snapshot or the genesis, not a regular block.
    let snap = with_id(Block::Snapshot {
        id: dummy_id(),
        prev: rid,
        at: gid,
        data: None,
        config: None,
        sign: vec![sig_by(1)],
    });
    assert_eq!(validate(&store, &snap, &vec![true]), Err(ChainError::MalformedBlock));
}

#[test]
fn heads_are_the_blocks_without_children() {
    let mut store = ChainStore::new();
    let g = genesis(cfg_single(1), 1);
    let gid = block_id(&g);
    assert_eq!(submit(&mut store, g, &vec![true]), Ok(true));
    assert_eq!(store.heads(), vec![gid.clone()]);
    let r1 = regular(&gid, b"left", 1);
    let r2 = regular(&gid, b"right", 1);
    let (i1, i2) = (block_id(&r1), block_id(&r2));
    assert_eq!(submit(&mut store, r1, &vec![true]), Ok(true));
    assert_eq!(submit(&mut store, r2, &vec![true]), Ok(true));
    let heads = store.heads();
    assert_eq!(heads.len(), 2);
    assert!(heads.contains(&i1));
    assert!(heads.contains(&i2));
    assert!(!heads.contains(&gid));
}

#[test]
fn ancestry_follows_the_parent_links() {
    let mut store = ChainStore::new();
    let g = genesis(cfg_single(1), 1);
    let gid = block_id(&g);
    assert_eq!(submit(&mut store, g, &vec![true]), Ok(true));
    let r = regular(&gid, b"child", 1);
    let rid = block_id(&r);
    assert_eq!(submit(&mut store, r, &vec![true]), Ok(true));
    assert!(store.is_ancestor(&gid, &rid));
    assert!(!store.is_ancestor(&rid, &gid));
    assert!(store.is_ancestor(&gid, &gid));
}

#[test]
fn digest_recomputation_is_deterministic() {
    let b1 = genesis(cfg_single(1), 1);
    let b2 = genesis(cfg_single(1), 1);
    // Two separately built, logically equal blocks: same canonical
    // bytes, same digest.
    assert_eq!(hash_input_bytes(&b1), hash_input_bytes(&b2));
    assert_eq!(compute_id(&b1).bytes, compute_id(&b2).bytes);
    assert_eq!(compute_id(&b1).bytes, compute_id(&b1).bytes);
    // A different payload gives different canonical bytes.
    let other = genesis(cfg_single(2), 1);
    assert_ne!(hash_input_bytes(&b1), hash_input_bytes(&other));
    assert_ne!(compute_id(&b1).bytes, compute_id(&other).bytes);
}

#[test]
fn computed_ids_are_real_multihashes() {
    let b = genesis(cfg_single(1), 1);
    let id = compute_id(&b);
    // SHA2-256 multihash: code 0x12, length 0x20, then 32 bytes.
    assert_eq!(id.bytes.len(), 34);
    assert_eq!(id.bytes[0], 0x12);
    assert_eq!(id.bytes[1], 0x20);
    assert_ne!(id.bytes, hash_input_bytes(&b));
}

#[test]
fn signed_bytes_exclude_the_signature_list() {
    let g1 = genesis(cfg_single(1), 1);
    let g2 = genesis(cfg_single(1), 2);
    // The signed bytes are what a producer signs before the
    // signature list exists: they must not depend on it.
    assert_eq!(signed_bytes(&g1), signed_bytes(&g2));
    // The hashed bytes do include the signatures.
    assert_ne!(hash_input_bytes(&g1), hash_input_bytes(&g2));
}

#[test]
fn get_returns_the_stored_block() {
    let mut store = ChainStore::new();
    let g = genesis(cfg_single(1), 1);
    let gid = block_id(&g);
    assert_eq!(submit(&mut store, g, &vec![true]), Ok(true));
    assert!(store.get(&gid).is_some());
    assert!(store.get(&Digest { bytes: vec![0; 34] }).is_none());
}
