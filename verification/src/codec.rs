//! The canonical byte encoding of the data model, and the content
//! digest over it.
//!
//! Every hashed or signed field set has exactly one deterministic
//! byte form: an ordered tuple encoding with fixed variant tags,
//! 64-bit little-endian length prefixes and UTF-8 string bytes. No
//! map ordering is ever relied on. Digest reproducibility across
//! runs rests on this form being a pure function of the value.

use vstd::prelude::*;
use vstd::utf8::encode_utf8;
use crate::as_types::{
    Activity, ActivityStreamEntity, Actor, AsActivity, AsObject, Context, Link, Object, Ztm,
};
use crate::protocol::{
    ActionCategory, AuthThreshold, Block, Digest, KeyAlgo, MultiKey, Payload, SignSettings,
    Signature, digest_eq_spec,
};

verus! {

broadcast use vstd::std_specs::vec::group_vec_axioms;

/// A 64-bit number as eight little-endian bytes.
pub open spec fn enc_u64_spec(n: u64) -> Seq<u8> {
    seq![
        (n % 256) as u8,
        ((n / 256) % 256) as u8,
        ((n / 65536) % 256) as u8,
        ((n / 16777216) % 256) as u8,
        ((n / 4294967296) % 256) as u8,
        ((n / 1099511627776) % 256) as u8,
        ((n / 281474976710656) % 256) as u8,
        ((n / 72057594037927936) % 256) as u8,
    ]
}

/// A byte string, length-prefixed.
pub open spec fn enc_bytes_spec(b: Seq<u8>) -> Seq<u8> {
    enc_u64_spec(b.len() as u64) + b
}

/// A string: its UTF-8 bytes, length-prefixed.
pub open spec fn enc_string_spec(s: String) -> Seq<u8> {
    enc_bytes_spec(encode_utf8(s@))
}

/// An optional string: an absence/presence tag, then the string.
pub open spec fn enc_opt_string_spec(o: Option<String>) -> Seq<u8> {
    match o {
        Option::None => seq![0u8],
        Option::Some(s) => seq![1u8] + enc_string_spec(s),
    }
}

/// A digest: its multihash bytes, length-prefixed.
pub open spec fn enc_digest_spec(d: Digest) -> Seq<u8> {
    enc_bytes_spec(d.bytes@)
}

/// The fixed tag of a key algorithm.
pub open spec fn alg_tag_spec(a: KeyAlgo) -> u8 {
    match a {
        KeyAlgo::Ed25519 => 0u8,
        KeyAlgo::Pgp => 1u8,
    }
}

/// A key: its algorithm tag, then its bytes, length-prefixed.
pub open spec fn enc_key_spec(k: MultiKey) -> Seq<u8> {
    seq![alg_tag_spec(k.alg)] + enc_bytes_spec(k.key@)
}

/// A signature: the claimed key, then the signature bytes.
pub open spec fn enc_sig_spec(s: Signature) -> Seq<u8> {
    enc_key_spec(s.key) + enc_bytes_spec(s.sig@)
}

/// The fixed tag of an action category.
pub open spec fn cat_tag_spec(c: ActionCategory) -> u8 {
    match c {
        ActionCategory::Cipher => 0u8,
        ActionCategory::Public => 1u8,
        ActionCategory::Upgrade => 2u8,
        ActionCategory::Snapshot => 3u8,
        ActionCategory::Merge => 4u8,
        ActionCategory::All => 5u8,
    }
}

/// A threshold rule: its category tag and its fraction.
pub open spec fn enc_threshold_spec(t: AuthThreshold) -> Seq<u8> {
    seq![cat_tag_spec(t.spec_category()), t.spec_fraction().0, t.spec_fraction().1]
}

/// The weighted key list from index `i` on.
pub open spec fn enc_weights_spec(ws: Seq<(MultiKey, u8)>, i: int) -> Seq<u8>
    decreases ws.len() - i,
{
    if 0 <= i < ws.len() {
        enc_key_spec(ws[i].0) + seq![ws[i].1] + enc_weights_spec(ws, i + 1)
    } else {
        Seq::empty()
    }
}

/// The threshold table from index `i` on.
pub open spec fn enc_thresholds_spec(ts: Seq<AuthThreshold>, i: int) -> Seq<u8>
    decreases ts.len() - i,
{
    if 0 <= i < ts.len() {
        enc_threshold_spec(ts[i]) + enc_thresholds_spec(ts, i + 1)
    } else {
        Seq::empty()
    }
}

/// A configuration: its counted weight list, then its counted
/// threshold table.
pub open spec fn enc_config_spec(c: SignSettings) -> Seq<u8> {
    enc_u64_spec(c.weights@.len() as u64) + enc_weights_spec(c.weights@, 0) + enc_u64_spec(
        c.thresholds@.len() as u64,
    ) + enc_thresholds_spec(c.thresholds@, 0)
}

/// An optional configuration: an absence/presence tag, then the
/// configuration.
pub open spec fn enc_opt_config_spec(o: Option<SignSettings>) -> Seq<u8> {
    match o {
        Option::None => seq![0u8],
        Option::Some(c) => seq![1u8] + enc_config_spec(c),
    }
}

/// The signature list from index `i` on.
pub open spec fn enc_sigs_spec(ss: Seq<Signature>, i: int) -> Seq<u8>
    decreases ss.len() - i,
{
    if 0 <= i < ss.len() {
        enc_sig_spec(ss[i]) + enc_sigs_spec(ss, i + 1)
    } else {
        Seq::empty()
    }
}

/// The digest list from index `i` on.
pub open spec fn enc_digests_spec(ds: Seq<Digest>, i: int) -> Seq<u8>
    decreases ds.len() - i,
{
    if 0 <= i < ds.len() {
        enc_digest_spec(ds[i]) + enc_digests_spec(ds, i + 1)
    } else {
        Seq::empty()
    }
}

/// A link: a variant tag, then the raw string if any.
pub open spec fn enc_link_spec(l: Link) -> Seq<u8> {
    match l {
        Link::Detailed(_) => seq![0u8],
        Link::Raw(s) => seq![1u8] + enc_string_spec(s),
    }
}

/// A context: a variant tag, then the link or string carried.
pub open spec fn enc_context_spec(c: Context) -> Seq<u8> {
    match c {
        Context::Detailed(_) => seq![0u8],
        Context::Link(l) => seq![1u8] + enc_link_spec(l),
        Context::Raw(s) => seq![2u8] + enc_string_spec(s),
    }
}

/// The boxed contexts of a `Many`, from index `i` on.
pub open spec fn enc_contexts_spec(v: Seq<Box<Context>>, i: int) -> Seq<u8>
    decreases v.len() - i,
{
    if 0 <= i < v.len() {
        enc_context_spec(*v[i]) + enc_contexts_spec(v, i + 1)
    } else {
        Seq::empty()
    }
}

/// Zero, one or many contexts: a cardinality tag, a count for
/// `Many`, then the elements in order.
pub open spec fn enc_ztm_context_spec(z: Ztm<Box<Context>>) -> Seq<u8> {
    match z {
        Ztm::Zero => seq![0u8],
        Ztm::One(c) => seq![1u8] + enc_context_spec(*c),
        Ztm::Many(v) => seq![2u8] + enc_u64_spec(v@.len() as u64) + enc_contexts_spec(v@, 0),
    }
}

/// The extra attributes from index `i` on: ordered name/value pairs.
pub open spec fn enc_extra_spec(v: Seq<(String, String)>, i: int) -> Seq<u8>
    decreases v.len() - i,
{
    if 0 <= i < v.len() {
        enc_string_spec(v[i].0) + enc_string_spec(v[i].1) + enc_extra_spec(v, i + 1)
    } else {
        Seq::empty()
    }
}

/// An object: a variant tag, then its attributes or link.
pub open spec fn enc_object_spec(o: Object) -> Seq<u8>
    decreases o,
{
    match o {
        Object::Post(a) => seq![0u8] + enc_as_object_spec(a),
        Object::Link(l) => seq![1u8] + enc_link_spec(l),
    }
}

/// The common attributes of a plain object, in fixed field order.
pub open spec fn enc_as_object_spec(a: AsObject) -> Seq<u8>
    decreases a,
{
    enc_opt_string_spec(a.name) + enc_opt_string_spec(a.id) + enc_ztm_context_spec(a.context)
        + enc_ztm_boxed_object_spec(a.attachment) + enc_ztm_boxed_object_spec(a.attributed_to)
        + enc_u64_spec(a.extra@.len() as u64) + enc_extra_spec(a.extra@, 0)
}

/// Zero, one or many boxed objects.
pub open spec fn enc_ztm_boxed_object_spec(z: Ztm<Box<Object>>) -> Seq<u8>
    decreases z,
{
    match z {
        Ztm::Zero => seq![0u8],
        Ztm::One(o) => seq![1u8] + enc_object_spec(*o),
        Ztm::Many(v) => seq![2u8] + enc_u64_spec(v@.len() as u64) + enc_boxed_objects_spec(v, 0),
    }
}

/// The boxed objects of a `Many`, from index `i` on.
pub open spec fn enc_boxed_objects_spec(v: Vec<Box<Object>>, i: int) -> Seq<u8>
    decreases v, v@.len() - i,
{
    if 0 <= i < v@.len() {
        enc_object_spec(*v@[i]) + enc_boxed_objects_spec(v, i + 1)
    } else {
        Seq::empty()
    }
}

/// An actor: a variant tag, then its attributes or link.
pub open spec fn enc_actor_spec(a: Actor) -> Seq<u8>
    decreases a,
{
    match a {
        Actor::Application(o) => seq![0u8] + enc_as_object_spec(o),
        Actor::Group(o) => seq![1u8] + enc_as_object_spec(o),
        Actor::Organization(o) => seq![2u8] + enc_as_object_spec(o),
        Actor::Person(o) => seq![3u8] + enc_as_object_spec(o),
        Actor::Service(o) => seq![4u8] + enc_as_object_spec(o),
        Actor::Link(l) => seq![5u8] + enc_link_spec(l),
    }
}

/// Zero, one or many actors.
pub open spec fn enc_ztm_actor_spec(z: Ztm<Actor>) -> Seq<u8>
    decreases z,
{
    match z {
        Ztm::Zero => seq![0u8],
        Ztm::One(a) => seq![1u8] + enc_actor_spec(a),
        Ztm::Many(v) => seq![2u8] + enc_u64_spec(v@.len() as u64) + enc_actors_spec(v, 0),
    }
}

/// The actors of a `Many`, from index `i` on.
pub open spec fn enc_actors_spec(v: Vec<Actor>, i: int) -> Seq<u8>
    decreases v, v@.len() - i,
{
    if 0 <= i < v@.len() {
        enc_actor_spec(v@[i]) + enc_actors_spec(v, i + 1)
    } else {
        Seq::empty()
    }
}

/// Zero, one or many objects.
pub open spec fn enc_ztm_object_spec(z: Ztm<Object>) -> Seq<u8>
    decreases z,
{
    match z {
        Ztm::Zero => seq![0u8],
        Ztm::One(o) => seq![1u8] + enc_object_spec(o),
        Ztm::Many(v) => seq![2u8] + enc_u64_spec(v@.len() as u64) + enc_objects_spec(v, 0),
    }
}

/// The objects of a `Many`, from index `i` on.
pub open spec fn enc_objects_spec(v: Vec<Object>, i: int) -> Seq<u8>
    decreases v, v@.len() - i,
{
    if 0 <= i < v@.len() {
        enc_object_spec(v@[i]) + enc_objects_spec(v, i + 1)
    } else {
        Seq::empty()
    }
}

/// The attributes of an activity, in fixed field order.
pub open spec fn enc_as_activity_spec(a: AsActivity) -> Seq<u8>
    decreases a,
{
    enc_as_object_spec(a.base) + enc_ztm_actor_spec(a.actor) + enc_ztm_object_spec(a.object)
        + enc_ztm_object_spec(a.target) + enc_ztm_object_spec(a.instrument) + enc_ztm_object_spec(
        a.result,
    ) + enc_ztm_object_spec(a.origin)
}

/// An activity: a variant tag, then its attributes.
pub open spec fn enc_activity_spec(a: Activity) -> Seq<u8>
    decreases a,
{
    match a {
        Activity::Create(x) => seq![0u8] + enc_as_activity_spec(x),
        Activity::Add(x) => seq![1u8] + enc_as_activity_spec(x),
        Activity::Remove(x) => seq![2u8] + enc_as_activity_spec(x),
    }
}

/// An entity: a variant tag, then the value carried.
pub open spec fn enc_entity_spec(e: ActivityStreamEntity) -> Seq<u8>
    decreases e,
{
    match e {
        ActivityStreamEntity::Actor(a) => seq![0u8] + enc_actor_spec(a),
        ActivityStreamEntity::Object(o) => seq![1u8] + enc_object_spec(o),
        ActivityStreamEntity::Activity(a) => seq![2u8] + enc_activity_spec(a),
        ActivityStreamEntity::Link(l) => seq![3u8] + enc_link_spec(l),
        ActivityStreamEntity::Raw(s) => seq![4u8] + enc_string_spec(s),
    }
}

/// The entities of a `Many`, from index `i` on.
pub open spec fn enc_entities_spec(v: Vec<ActivityStreamEntity>, i: int) -> Seq<u8>
    decreases v, v@.len() - i,
{
    if 0 <= i < v@.len() {
        enc_entity_spec(v@[i]) + enc_entities_spec(v, i + 1)
    } else {
        Seq::empty()
    }
}

/// Zero, one or many entities.
pub open spec fn enc_ztm_entity_spec(z: Ztm<ActivityStreamEntity>) -> Seq<u8>
    decreases z,
{
    match z {
        Ztm::Zero => seq![0u8],
        Ztm::One(e) => seq![1u8] + enc_entity_spec(e),
        Ztm::Many(v) => seq![2u8] + enc_u64_spec(v@.len() as u64) + enc_entities_spec(v, 0),
    }
}

/// A payload: a variant tag, then the structured content or the
/// ciphertext bytes.
pub open spec fn enc_payload_spec(p: Payload) -> Seq<u8>
    decreases p,
{
    match p {
        Payload::Plain(z) => seq![0u8] + enc_ztm_entity_spec(z),
        Payload::Cipher(b) => seq![1u8] + enc_bytes_spec(b@),
    }
}

/// An optional payload: an absence/presence tag, then the payload.
pub open spec fn enc_opt_payload_spec(o: Option<Payload>) -> Seq<u8>
    decreases o,
{
    match o {
        Option::None => seq![0u8],
        Option::Some(p) => seq![1u8] + enc_payload_spec(p),
    }
}

/// The canonical bytes of a block's fields, excluding the id field,
/// with or without the signature list: a variant tag, then the
/// fields in declaration order.
#[verifier::opaque]
pub open spec fn block_fields_spec(b: Block, with_sign: bool) -> Seq<u8> {
    let sig_part = |sign: Seq<Signature>|
        if with_sign {
            enc_u64_spec(sign.len() as u64) + enc_sigs_spec(sign, 0)
        } else {
            Seq::<u8>::empty()
        };
    match b {
        Block::Genesis { id: _, config, data, sign } => seq![0u8] + enc_config_spec(config)
            + enc_payload_spec(data) + sig_part(sign@),
        Block::Regular { id: _, prev, data, sign } => seq![1u8] + enc_digest_spec(prev)
            + enc_payload_spec(data) + sig_part(sign@),
        Block::Upgrade { id: _, prev, config, sign } => seq![2u8] + enc_digest_spec(prev)
            + enc_config_spec(config) + sig_part(sign@),
        Block::Merge { id: _, parents, data, config, sign } => seq![3u8] + enc_u64_spec(
            parents@.len() as u64,
        ) + enc_digests_spec(parents@, 0) + enc_opt_payload_spec(data) + enc_opt_config_spec(config)
            + sig_part(sign@),
        Block::Snapshot { id: _, prev, at, data, config, sign } => seq![4u8] + enc_digest_spec(prev)
            + enc_digest_spec(at) + enc_opt_payload_spec(data) + enc_opt_config_spec(config)
            + sig_part(sign@),
    }
}

/// The bytes a block's id is the digest of: every hashed field,
/// signatures included, the id itself excluded.
pub open spec fn hash_input_spec(b: Block) -> Seq<u8> {
    block_fields_spec(b, true)
}

/// The bytes a block's signatures are made over: every hashed field
/// except the signature list itself.
pub open spec fn signed_input_spec(b: Block) -> Seq<u8> {
    block_fields_spec(b, false)
}

/// The full canonical bytes of a block, the claimed id included;
/// the store compares these to tell an identical resubmission from
/// a digest collision.
pub open spec fn block_bytes_spec(b: Block) -> Seq<u8> {
    enc_digest_spec(b.spec_id()) + hash_input_spec(b)
}

/// What the content digest of a byte string is. The hash itself is
/// outside the core; the name states only that it is a function of
/// the input bytes alone, which is what digest reproducibility
/// rests on.
pub uninterp spec fn digest_of(bytes: Seq<u8>) -> Seq<u8>;

/// Relies on multihash's `Sha2_256::digest`: hashes the input bytes
/// and returns the algorithm-tagged multihash byte form, a function
/// of the input bytes alone.
#[verifier::external_body]
fn multihash_sha2(bytes: &Vec<u8>) -> (r: Vec<u8>)
    ensures
        r@ == digest_of(bytes@),
{
    multihash::Sha2_256::digest(bytes.as_slice()).into_bytes()
}

/// Appends a 64-bit number as eight little-endian bytes.
fn push_u64(out: &mut Vec<u8>, n: u64)
    ensures
        final(out)@ == old(out)@ + enc_u64_spec(n),
{
    out.push((n % 256) as u8);
    out.push(((n / 256) % 256) as u8);
    out.push(((n / 65536) % 256) as u8);
    out.push(((n / 16777216) % 256) as u8);
    out.push(((n / 4294967296) % 256) as u8);
    out.push(((n / 1099511627776) % 256) as u8);
    out.push(((n / 281474976710656) % 256) as u8);
    out.push(((n / 72057594037927936) % 256) as u8);
    proof {
        assert(out@ =~= old(out)@ + enc_u64_spec(n));
    }
}

/// Appends raw bytes.
fn push_raw(out: &mut Vec<u8>, b: &[u8])
    ensures
        final(out)@ == old(out)@ + b@,
{
    let mut i: usize = 0;
    proof {
        assert(out@ =~= old(out)@ + b@.take(0));
    }
    while i < b.len()
        invariant
            0 <= i <= b@.len(),
            out@ == old(out)@ + b@.take(i as int),
        decreases b@.len() - i,
    {
        out.push(b[i]);
        proof {
            assert(out@ =~= old(out)@ + b@.take(i as int + 1));
        }
        i += 1;
    }
    proof {
        assert(b@.take(b@.len() as int) =~= b@);
    }
}

/// Appends a byte string, length-prefixed.
fn push_bytes(out: &mut Vec<u8>, b: &[u8])
    ensures
        final(out)@ == old(out)@ + enc_bytes_spec(b@),
{
    push_u64(out, b.len() as u64);
    push_raw(out, b);
    proof {
        assert(out@ =~= old(out)@ + enc_bytes_spec(b@));
    }
}

/// Appends a string: its UTF-8 bytes, length-prefixed.
fn push_string(out: &mut Vec<u8>, s: &String)
    ensures
        final(out)@ == old(out)@ + enc_string_spec(*s),
{
    let bs = s.as_str().as_bytes();
    push_bytes(out, bs);
}

/// Appends an optional string.
fn push_opt_string(out: &mut Vec<u8>, o: &Option<String>)
    ensures
        final(out)@ == old(out)@ + enc_opt_string_spec(*o),
{
    match o {
        Option::None => {
            out.push(0u8);
            proof {
                assert(out@ =~= old(out)@ + enc_opt_string_spec(*o));
            }
        },
        Option::Some(s) => {
            out.push(1u8);
            push_string(out, s);
            proof {
                assert(out@ =~= old(out)@ + enc_opt_string_spec(*o));
            }
        },
    }
}

/// Appends a digest.
fn push_digest(out: &mut Vec<u8>, d: &Digest)
    ensures
        final(out)@ == old(out)@ + enc_digest_spec(*d),
{
    push_bytes(out, d.bytes.as_slice());
}

/// Appends a key: its algorithm tag, then its bytes.
fn push_key(out: &mut Vec<u8>, k: &MultiKey)
    ensures
        final(out)@ == old(out)@ + enc_key_spec(*k),
{
    let tag: u8 = match k.alg {
        KeyAlgo::Ed25519 => 0u8,
        KeyAlgo::Pgp => 1u8,
    };
    out.push(tag);
    push_bytes(out, k.key.as_slice());
    proof {
        assert(out@ =~= old(out)@ + enc_key_spec(*k));
    }
}

/// Appends a signature: the claimed key, then the signature bytes.
fn push_sig(out: &mut Vec<u8>, s: &Signature)
    ensures
        final(out)@ == old(out)@ + enc_sig_spec(*s),
{
    push_key(out, &s.key);
    push_bytes(out, s.sig.as_slice());
    proof {
        assert(out@ =~= old(out)@ + enc_sig_spec(*s));
    }
}

/// Appends a threshold rule: category tag and fraction.
fn push_threshold(out: &mut Vec<u8>, t: &AuthThreshold)
    ensures
        final(out)@ == old(out)@ + enc_threshold_spec(*t),
{
    let cat = t.category();
    let tag: u8 = match cat {
        ActionCategory::Cipher => 0u8,
        ActionCategory::Public => 1u8,
        ActionCategory::Upgrade => 2u8,
        ActionCategory::Snapshot => 3u8,
        ActionCategory::Merge => 4u8,
        ActionCategory::All => 5u8,
    };
    let f = t.fraction();
    out.push(tag);
    out.push(f.0);
    out.push(f.1);
    proof {
        assert(out@ =~= old(out)@ + enc_threshold_spec(*t));
    }
}

/// Appends the weighted key list from index `i` on.
fn push_weights(ws: &Vec<(MultiKey, u8)>, i: usize, out: &mut Vec<u8>)
    requires
        i <= ws@.len(),
    ensures
        final(out)@ == old(out)@ + enc_weights_spec(ws@, i as int),
    decreases ws@.len() - i,
{
    if i < ws.len() {
        push_key(out, &ws[i].0);
        out.push(ws[i].1);
        push_weights(ws, i + 1, out);
        proof {
            assert(out@ =~= old(out)@ + enc_weights_spec(ws@, i as int));
        }
    }
}

/// Appends the threshold table from index `i` on.
fn push_thresholds(ts: &Vec<AuthThreshold>, i: usize, out: &mut Vec<u8>)
    requires
        i <= ts@.len(),
    ensures
        final(out)@ == old(out)@ + enc_thresholds_spec(ts@, i as int),
    decreases ts@.len() - i,
{
    if i < ts.len() {
        push_threshold(out, &ts[i]);
        push_thresholds(ts, i + 1, out);
        proof {
            assert(out@ =~= old(out)@ + enc_thresholds_spec(ts@, i as int));
        }
    }
}

/// Appends a configuration.
#[verifier::rlimit(60)]
fn push_config(out: &mut Vec<u8>, c: &SignSettings)
    ensures
        final(out)@ == old(out)@ + enc_config_spec(*c),
{
    push_u64(out, c.weights.len() as u64);
    push_weights(&c.weights, 0, out);
    push_u64(out, c.thresholds.len() as u64);
    push_thresholds(&c.thresholds, 0, out);
    proof {
        assert(out@ =~= old(out)@ + enc_config_spec(*c));
    }
}

/// Appends an optional configuration.
fn push_opt_config(out: &mut Vec<u8>, o: &Option<SignSettings>)
    ensures
        final(out)@ == old(out)@ + enc_opt_config_spec(*o),
{
    match o {
        Option::None => {
            out.push(0u8);
            proof {
                assert(out@ =~= old(out)@ + enc_opt_config_spec(*o));
            }
        },
        Option::Some(c) => {
            out.push(1u8);
            push_config(out, c);
            proof {
                assert(out@ =~= old(out)@ + enc_opt_config_spec(*o));
            }
        },
    }
}

/// Appends the signature list from index `i` on.
fn push_sigs(ss: &Vec<Signature>, i: usize, out: &mut Vec<u8>)
    requires
        i <= ss@.len(),
    ensures
        final(out)@ == old(out)@ + enc_sigs_spec(ss@, i as int),
    decreases ss@.len() - i,
{
    if i < ss.len() {
        push_sig(out, &ss[i]);
        push_sigs(ss, i + 1, out);
        proof {
            assert(out@ =~= old(out)@ + enc_sigs_spec(ss@, i as int));
        }
    }
}

/// Appends the digest list from index `i` on.
fn push_digests(ds: &Vec<Digest>, i: usize, out: &mut Vec<u8>)
    requires
        i <= ds@.len(),
    ensures
        final(out)@ == old(out)@ + enc_digests_spec(ds@, i as int),
    decreases ds@.len() - i,
{
    if i < ds.len() {
        push_digest(out, &ds[i]);
        push_digests(ds, i + 1, out);
        proof {
            assert(out@ =~= old(out)@ + enc_digests_spec(ds@, i as int));
        }
    }
}

/// Appends a link.
fn push_link(out: &mut Vec<u8>, l: &Link)
    ensures
        final(out)@ == old(out)@ + enc_link_spec(*l),
{
    match l {
        Link::Detailed(_) => {
            out.push(0u8);
            proof {
                assert(out@ =~= old(out)@ + enc_link_spec(*l));
            }
        },
        Link::Raw(s) => {
            out.push(1u8);
            push_string(out, s);
            proof {
                assert(out@ =~= old(out)@ + enc_link_spec(*l));
            }
        },
    }
}

/// Appends a context.
fn push_context(out: &mut Vec<u8>, c: &Context)
    ensures
        final(out)@ == old(out)@ + enc_context_spec(*c),
{
    match c {
        Context::Detailed(_) => {
            out.push(0u8);
            proof {
                assert(out@ =~= old(out)@ + enc_context_spec(*c));
            }
        },
        Context::Link(l) => {
            out.push(1u8);
            push_link(out, l);
            proof {
                assert(out@ =~= old(out)@ + enc_context_spec(*c));
            }
        },
        Context::Raw(s) => {
            out.push(2u8);
            push_string(out, s);
            proof {
                assert(out@ =~= old(out)@ + enc_context_spec(*c));
            }
        },
    }
}

/// Appends the boxed contexts of a `Many`, from index `i` on.
fn push_contexts(v: &Vec<Box<Context>>, i: usize, out: &mut Vec<u8>)
    requires
        i <= v@.len(),
    ensures
        final(out)@ == old(out)@ + enc_contexts_spec(v@, i as int),
    decreases v@.len() - i,
{
    if i < v.len() {
        push_context(out, &v[i]);
        push_contexts(v, i + 1, out);
        proof {
            assert(out@ =~= old(out)@ + enc_contexts_spec(v@, i as int));
        }
    }
}

/// Appends zero, one or many contexts.
fn push_ztm_context(out: &mut Vec<u8>, z: &Ztm<Box<Context>>)
    ensures
        final(out)@ == old(out)@ + enc_ztm_context_spec(*z),
{
    match z {
        Ztm::Zero => {
            out.push(0u8);
            proof {
                assert(out@ =~= old(out)@ + enc_ztm_context_spec(*z));
            }
        },
        Ztm::One(c) => {
            out.push(1u8);
            push_context(out, c);
            proof {
                assert(out@ =~= old(out)@ + enc_ztm_context_spec(*z));
            }
        },
        Ztm::Many(v) => {
            out.push(2u8);
            push_u64(out, v.len() as u64);
            push_contexts(v, 0, out);
            proof {
                assert(out@ =~= old(out)@ + enc_ztm_context_spec(*z));
            }
        },
    }
}

/// Appends the extra attributes from index `i` on.
fn push_extra(v: &Vec<(String, String)>, i: usize, out: &mut Vec<u8>)
    requires
        i <= v@.len(),
    ensures
        final(out)@ == old(out)@ + enc_extra_spec(v@, i as int),
    decreases v@.len() - i,
{
    if i < v.len() {
        push_string(out, &v[i].0);
        push_string(out, &v[i].1);
        push_extra(v, i + 1, out);
        proof {
            assert(out@ =~= old(out)@ + enc_extra_spec(v@, i as int));
        }
    }
}

/// Appends an object.
fn push_object(out: &mut Vec<u8>, o: &Object)
    ensures
        final(out)@ == old(out)@ + enc_object_spec(*o),
    decreases *o,
{
    match o {
        Object::Post(a) => {
            out.push(0u8);
            push_as_object(out, a);
            proof {
                assert(out@ =~= old(out)@ + enc_object_spec(*o));
            }
        },
        Object::Link(l) => {
            out.push(1u8);
            push_link(out, l);
            proof {
                assert(out@ =~= old(out)@ + enc_object_spec(*o));
            }
        },
    }
}

/// Appends the common attributes of a plain object.
#[verifier::rlimit(60)]
#[verifier::spinoff_prover]
fn push_as_object(out: &mut Vec<u8>, a: &AsObject)
    ensures
        final(out)@ == old(out)@ + enc_as_object_spec(*a),
    decreases *a,
{
    push_opt_string(out, &a.name);
    push_opt_string(out, &a.id);
    push_ztm_context(out, &a.context);
    push_ztm_boxed_object(out, &a.attachment);
    push_ztm_boxed_object(out, &a.attributed_to);
    push_u64(out, a.extra.len() as u64);
    push_extra(&a.extra, 0, out);
    proof {
        assert(out@ =~= old(out)@ + enc_as_object_spec(*a));
    }
}

/// Appends zero, one or many boxed objects.
fn push_ztm_boxed_object(out: &mut Vec<u8>, z: &Ztm<Box<Object>>)
    ensures
        final(out)@ == old(out)@ + enc_ztm_boxed_object_spec(*z),
    decreases *z,
{
    match z {
        Ztm::Zero => {
            out.push(0u8);
            proof {
                assert(out@ =~= old(out)@ + enc_ztm_boxed_object_spec(*z));
            }
        },
        Ztm::One(o) => {
            out.push(1u8);
            push_object(out, o);
            proof {
                assert(out@ =~= old(out)@ + enc_ztm_boxed_object_spec(*z));
            }
        },
        Ztm::Many(v) => {
            out.push(2u8);
            push_u64(out, v.len() as u64);
            push_boxed_objects(v, 0, out);
            proof {
                assert(out@ =~= old(out)@ + enc_ztm_boxed_object_spec(*z));
            }
        },
    }
}

/// Appends the boxed objects of a `Many`, from index `i` on.
fn push_boxed_objects(v: &Vec<Box<Object>>, i: usize, out: &mut Vec<u8>)
    requires
        i <= v@.len(),
    ensures
        final(out)@ == old(out)@ + enc_boxed_objects_spec(*v, i as int),
    decreases *v, v@.len() - i,
{
    if i < v.len() {
        push_object(out, &v[i]);
        push_boxed_objects(v, i + 1, out);
        proof {
            assert(out@ =~= old(out)@ + enc_boxed_objects_spec(*v, i as int));
        }
    }
}

/// Appends an actor.
fn push_actor(out: &mut Vec<u8>, a: &Actor)
    ensures
        final(out)@ == old(out)@ + enc_actor_spec(*a),
    decreases *a,
{
    match a {
        Actor::Application(o) => {
            out.push(0u8);
            push_as_object(out, o);
            proof {
                assert(out@ =~= old(out)@ + enc_actor_spec(*a));
            }
        },
        Actor::Group(o) => {
            out.push(1u8);
            push_as_object(out, o);
            proof {
                assert(out@ =~= old(out)@ + enc_actor_spec(*a));
            }
        },
        Actor::Organization(o) => {
            out.push(2u8);
            push_as_object(out, o);
            proof {
                assert(out@ =~= old(out)@ + enc_actor_spec(*a));
            }
        },
        Actor::Person(o) => {
            out.push(3u8);
            push_as_object(out, o);
            proof {
                assert(out@ =~= old(out)@ + enc_actor_spec(*a));
            }
        },
        Actor::Service(o) => {
            out.push(4u8);
            push_as_object(out, o);
            proof {
                assert(out@ =~= old(out)@ + enc_actor_spec(*a));
            }
        },
        Actor::Link(l) => {
            out.push(5u8);
            push_link(out, l);
            proof {
                assert(out@ =~= old(out)@ + enc_actor_spec(*a));
            }
        },
    }
}

/// Appends zero, one or many actors.
fn push_ztm_actor(out: &mut Vec<u8>, z: &Ztm<Actor>)
    ensures
        final(out)@ == old(out)@ + enc_ztm_actor_spec(*z),
    decreases *z,
{
    match z {
        Ztm::Zero => {
            out.push(0u8);
            proof {
                assert(out@ =~= old(out)@ + enc_ztm_actor_spec(*z));
            }
        },
        Ztm::One(a) => {
            out.push(1u8);
            push_actor(out, a);
            proof {
                assert(out@ =~= old(out)@ + enc_ztm_actor_spec(*z));
            }
        },
        Ztm::Many(v) => {
            out.push(2u8);
            push_u64(out, v.len() as u64);
            push_actors(v, 0, out);
            proof {
                assert(out@ =~= old(out)@ + enc_ztm_actor_spec(*z));
            }
        },
    }
}

/// Appends the actors of a `Many`, from index `i` on.
fn push_actors(v: &Vec<Actor>, i: usize, out: &mut Vec<u8>)
    requires
        i <= v@.len(),
    ensures
        final(out)@ == old(out)@ + enc_actors_spec(*v, i as int),
    decreases *v, v@.len() - i,
{
    if i < v.len() {
        push_actor(out, &v[i]);
        push_actors(v, i + 1, out);
        proof {
            assert(out@ =~= old(out)@ + enc_actors_spec(*v, i as int));
        }
    }
}

/// Appends zero, one or many objects.
fn push_ztm_object(out: &mut Vec<u8>, z: &Ztm<Object>)
    ensures
        final(out)@ == old(out)@ + enc_ztm_object_spec(*z),
    decreases *z,
{
    match z {
        Ztm::Zero => {
            out.push(0u8);
            proof {
                assert(out@ =~= old(out)@ + enc_ztm_object_spec(*z));
            }
        },
        Ztm::One(o) => {
            out.push(1u8);
            push_object(out, o);
            proof {
                assert(out@ =~= old(out)@ + enc_ztm_object_spec(*z));
            }
        },
        Ztm::Many(v) => {
            out.push(2u8);
            push_u64(out, v.len() as u64);
            push_objects(v, 0, out);
            proof {
                assert(out@ =~= old(out)@ + enc_ztm_object_spec(*z));
            }
        },
    }
}

/// Appends the objects of a `Many`, from index `i` on.
fn push_objects(v: &Vec<Object>, i: usize, out: &mut Vec<u8>)
    requires
        i <= v@.len(),
    ensures
        final(out)@ == old(out)@ + enc_objects_spec(*v, i as int),
    decreases *v, v@.len() - i,
{
    if i < v.len() {
        push_object(out, &v[i]);
        push_objects(v, i + 1, out);
        proof {
            assert(out@ =~= old(out)@ + enc_objects_spec(*v, i as int));
        }
    }
}

/// Appends the attributes of an activity.
#[verifier::rlimit(60)]
#[verifier::spinoff_prover]
fn push_as_activity(out: &mut Vec<u8>, a: &AsActivity)
    ensures
        final(out)@ == old(out)@ + enc_as_activity_spec(*a),
    decreases *a,
{
    push_as_object(out, &a.base);
    push_ztm_actor(out, &a.actor);
    push_ztm_object(out, &a.object);
    push_ztm_object(out, &a.target);
    push_ztm_object(out, &a.instrument);
    push_ztm_object(out, &a.result);
    push_ztm_object(out, &a.origin);
    proof {
        assert(out@ =~= old(out)@ + enc_as_activity_spec(*a));
    }
}

/// Appends an activity.
fn push_activity(out: &mut Vec<u8>, a: &Activity)
    ensures
        final(out)@ == old(out)@ + enc_activity_spec(*a),
    decreases *a,
{
    match a {
        Activity::Create(x) => {
            out.push(0u8);
            push_as_activity(out, x);
            proof {
                assert(out@ =~= old(out)@ + enc_activity_spec(*a));
            }
        },
        Activity::Add(x) => {
            out.push(1u8);
            push_as_activity(out, x);
            proof {
                assert(out@ =~= old(out)@ + enc_activity_spec(*a));
            }
        },
        Activity::Remove(x) => {
            out.push(2u8);
            push_as_activity(out, x);
            proof {
                assert(out@ =~= old(out)@ + enc_activity_spec(*a));
            }
        },
    }
}

/// Appends an entity.
fn push_entity(out: &mut Vec<u8>, e: &ActivityStreamEntity)
    ensures
        final(out)@ == old(out)@ + enc_entity_spec(*e),
    decreases *e,
{
    match e {
        ActivityStreamEntity::Actor(a) => {
            out.push(0u8);
            push_actor(out, a);
            proof {
                assert(out@ =~= old(out)@ + enc_entity_spec(*e));
            }
        },
        ActivityStreamEntity::Object(o) => {
            out.push(1u8);
            push_object(out, o);
            proof {
                assert(out@ =~= old(out)@ + enc_entity_spec(*e));
            }
        },
        ActivityStreamEntity::Activity(a) => {
            out.push(2u8);
            push_activity(out, a);
            proof {
                assert(out@ =~= old(out)@ + enc_entity_spec(*e));
            }
        },
        ActivityStreamEntity::Link(l) => {
            out.push(3u8);
            push_link(out, l);
            proof {
                assert(out@ =~= old(out)@ + enc_entity_spec(*e));
            }
        },
        ActivityStreamEntity::Raw(s) => {
            out.push(4u8);
            push_string(out, s);
            proof {
                assert(out@ =~= old(out)@ + enc_entity_spec(*e));
            }
        },
    }
}

/// Appends the entities of a `Many`, from index `i` on.
fn push_entities(v: &Vec<ActivityStreamEntity>, i: usize, out: &mut Vec<u8>)
    requires
        i <= v@.len(),
    ensures
        final(out)@ == old(out)@ + enc_entities_spec(*v, i as int),
    decreases *v, v@.len() - i,
{
    if i < v.len() {
        push_entity(out, &v[i]);
        push_entities(v, i + 1, out);
        proof {
            assert(out@ =~= old(out)@ + enc_entities_spec(*v, i as int));
        }
    }
}

/// Appends zero, one or many entities.
fn push_ztm_entity(out: &mut Vec<u8>, z: &Ztm<ActivityStreamEntity>)
    ensures
        final(out)@ == old(out)@ + enc_ztm_entity_spec(*z),
    decreases *z,
{
    match z {
        Ztm::Zero => {
            out.push(0u8);
            proof {
                assert(out@ =~= old(out)@ + enc_ztm_entity_spec(*z));
            }
        },
        Ztm::One(e) => {
            out.push(1u8);
            push_entity(out, e);
            proof {
                assert(out@ =~= old(out)@ + enc_ztm_entity_spec(*z));
            }
        },
        Ztm::Many(v) => {
            out.push(2u8);
            push_u64(out, v.len() as u64);
            push_entities(v, 0, out);
            proof {
                assert(out@ =~= old(out)@ + enc_ztm_entity_spec(*z));
            }
        },
    }
}

/// Appends a payload.
fn push_payload(out: &mut Vec<u8>, p: &Payload)
    ensures
        final(out)@ == old(out)@ + enc_payload_spec(*p),
{
    match p {
        Payload::Plain(z) => {
            out.push(0u8);
            push_ztm_entity(out, z);
            proof {
                assert(out@ =~= old(out)@ + enc_payload_spec(*p));
            }
        },
        Payload::Cipher(b) => {
            out.push(1u8);
            push_bytes(out, b.as_slice());
            proof {
                assert(out@ =~= old(out)@ + enc_payload_spec(*p));
            }
        },
    }
}

/// Appends an optional payload.
fn push_opt_payload(out: &mut Vec<u8>, o: &Option<Payload>)
    ensures
        final(out)@ == old(out)@ + enc_opt_payload_spec(*o),
{
    match o {
        Option::None => {
            out.push(0u8);
            proof {
                assert(out@ =~= old(out)@ + enc_opt_payload_spec(*o));
            }
        },
        Option::Some(p) => {
            out.push(1u8);
            push_payload(out, p);
            proof {
                assert(out@ =~= old(out)@ + enc_opt_payload_spec(*o));
            }
        },
    }
}

/// Appends a block's canonical fields, the id excluded, the
/// signature list included or not.
#[verifier::rlimit(100)]
#[verifier::spinoff_prover]
fn push_block_fields(out: &mut Vec<u8>, b: &Block, with_sign: bool)
    ensures
        final(out)@ == old(out)@ + block_fields_spec(*b, with_sign),
{
    proof {
        reveal(block_fields_spec);
    }
    match b {
        Block::Genesis { id: _, config, data, sign } => {
            out.push(0u8);
            push_config(out, config);
            push_payload(out, data);
            if with_sign {
                push_u64(out, sign.len() as u64);
                push_sigs(sign, 0, out);
            }
            proof {
                assert(out@ =~= old(out)@ + block_fields_spec(*b, with_sign));
            }
        },
        Block::Regular { id: _, prev, data, sign } => {
            out.push(1u8);
            push_digest(out, prev);
            push_payload(out, data);
            if with_sign {
                push_u64(out, sign.len() as u64);
                push_sigs(sign, 0, out);
            }
            proof {
                assert(out@ =~= old(out)@ + block_fields_spec(*b, with_sign));
            }
        },
        Block::Upgrade { id: _, prev, config, sign } => {
            out.push(2u8);
            push_digest(out, prev);
            push_config(out, config);
            if with_sign {
                push_u64(out, sign.len() as u64);
                push_sigs(sign, 0, out);
            }
            proof {
                assert(out@ =~= old(out)@ + block_fields_spec(*b, with_sign));
            }
        },
        Block::Merge { id: _, parents, data, config, sign } => {
            out.push(3u8);
            push_u64(out, parents.len() as u64);
            push_digests(parents, 0, out);
            push_opt_payload(out, data);
            push_opt_config(out, config);
            if with_sign {
                push_u64(out, sign.len() as u64);
                push_sigs(sign, 0, out);
            }
            proof {
                assert(out@ =~= old(out)@ + block_fields_spec(*b, with_sign));
            }
        },
        Block::Snapshot { id: _, prev, at, data, config, sign } => {
            out.push(4u8);
            push_digest(out, prev);
            push_digest(out, at);
            push_opt_payload(out, data);
            push_opt_config(out, config);
            if with_sign {
                push_u64(out, sign.len() as u64);
                push_sigs(sign, 0, out);
            }
            proof {
                assert(out@ =~= old(out)@ + block_fields_spec(*b, with_sign));
            }
        },
    }
}

/// The bytes a block's id must be the digest of.
pub fn hash_input_bytes(b: &Block) -> (r: Vec<u8>)
    ensures
        r@ == hash_input_spec(*b),
{
    let mut out: Vec<u8> = Vec::new();
    push_block_fields(&mut out, b, true);
    proof {
        assert(out@ =~= hash_input_spec(*b));
    }
    out
}

/// The bytes a block's signatures are made over: every hashed field
/// except the signature list. A producer signs these; a peer hands
/// them to its signature provider to check each claimed signature.
pub fn signed_bytes(b: &Block) -> (r: Vec<u8>)
    ensures
        r@ == signed_input_spec(*b),
{
    let mut out: Vec<u8> = Vec::new();
    push_block_fields(&mut out, b, false);
    proof {
        assert(out@ =~= signed_input_spec(*b));
    }
    out
}

/// The full canonical bytes of a block, the claimed id included.
pub fn block_bytes(b: &Block) -> (r: Vec<u8>)
    ensures
        r@ == block_bytes_spec(*b),
{
    let mut out: Vec<u8> = Vec::new();
    push_digest(&mut out, b.id());
    push_block_fields(&mut out, b, true);
    proof {
        assert(out@ =~= block_bytes_spec(*b));
    }
    out
}

/// Recomputes the content digest a block's id must equal: the hash
/// of its canonical bytes, the id field excluded, signatures
/// included.
pub fn compute_id(b: &Block) -> (r: Digest)
    ensures
        r.bytes@ == digest_of(hash_input_spec(*b)),
{
    let input = hash_input_bytes(b);
    Digest { bytes: multihash_sha2(&input) }
}

/// Digest recomputation is deterministic: any two digests computed
/// over the same logical block are byte-identical, because the
/// canonical encoding and the hash are functions of the block value
/// alone.
pub proof fn lemma_digest_recompute_deterministic(b: Block, d1: Digest, d2: Digest)
    requires
        d1.bytes@ == digest_of(hash_input_spec(b)),
        d2.bytes@ == digest_of(hash_input_spec(b)),
    ensures
        digest_eq_spec(d1, d2),
{
}

} // verus!
