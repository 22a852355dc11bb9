//! Weighted key-set and threshold-table evaluation: which weight a
//! set of signatures carries under a configuration, and whether that
//! weight meets the threshold a category demands.

use vstd::prelude::*;
use crate::protocol::{
    ActionCategory, AuthThreshold, MultiKey, SignSettings, Signature, key_eq, key_eq_spec,
};
use crate::ChainError;

verus! {

/// A configuration is valid iff it has at least one key, every weight
/// is at least one, no key appears twice, and no threshold fraction
/// carries a zero.
pub open spec fn config_valid(c: SignSettings) -> bool {
    &&& c.weights@.len() > 0
    &&& forall|i: int| 0 <= i < c.weights@.len() ==> c.weights@[i].1 >= 1
    &&& forall|i: int, j: int|
        0 <= i < j < c.weights@.len() ==> !key_eq_spec(c.weights@[i].0, c.weights@[j].0)
    &&& forall|i: int|
        0 <= i < c.thresholds@.len() ==> c.thresholds@[i].spec_fraction().0 >= 1
            && c.thresholds@[i].spec_fraction().1 >= 1
}

/// The fraction of the first rule in `ths` whose category is `cat`,
/// if any.
pub open spec fn first_match(ths: Seq<AuthThreshold>, cat: ActionCategory) -> Option<(u8, u8)>
    decreases ths.len(),
{
    if ths.len() == 0 {
        None
    } else if ths[0].spec_category() == cat {
        Some(ths[0].spec_fraction())
    } else {
        first_match(ths.skip(1), cat)
    }
}

/// The fraction that governs `cat` under `c`: the first rule whose
/// category matches, else the first `All` rule, else 1/1.
pub open spec fn lookup_spec(c: SignSettings, cat: ActionCategory) -> (u8, u8) {
    match first_match(c.thresholds@, cat) {
        Some(f) => f,
        None => match first_match(c.thresholds@, ActionCategory::All) {
            Some(f) => f,
            None => (1u8, 1u8),
        },
    }
}

/// The sum of all weights in the list.
pub open spec fn sum_weights(ws: Seq<(MultiKey, u8)>) -> nat
    decreases ws.len(),
{
    if ws.len() == 0 {
        0
    } else {
        sum_weights(ws.drop_last()) + ws.last().1 as nat
    }
}

/// Some signature in `sigs` claims key `k` and carries a positive
/// verdict from the signature provider.
pub open spec fn key_signed(sigs: Seq<Signature>, verdicts: Seq<bool>, k: MultiKey) -> bool {
    exists|i: int| 0 <= i < sigs.len() && verdicts[i] && key_eq_spec(sigs[i].key, k)
}

/// The summed weight of the keys in `ws` for which a valid signature
/// is present. Each key counts once, however many signatures it gave.
pub open spec fn auth_weight(
    ws: Seq<(MultiKey, u8)>,
    sigs: Seq<Signature>,
    verdicts: Seq<bool>,
) -> nat
    decreases ws.len(),
{
    if ws.len() == 0 {
        0
    } else {
        auth_weight(ws.drop_last(), sigs, verdicts) + if key_signed(sigs, verdicts, ws.last().0) {
            ws.last().1 as nat
        } else {
            0
        }
    }
}

/// The weight `w` meets the threshold that `cat` resolves to under
/// `c`: integer cross-multiplication, no fractional rounding.
pub open spec fn meets_threshold_spec(c: SignSettings, cat: ActionCategory, w: nat) -> bool {
    w * (lookup_spec(c, cat).1 as nat) >= sum_weights(c.weights@) * (lookup_spec(c, cat).0 as nat)
}

/// The total weight never exceeds 255 per key.
pub proof fn lemma_sum_weights_bound(ws: Seq<(MultiKey, u8)>)
    ensures
        sum_weights(ws) <= 255 * ws.len(),
    decreases ws.len(),
{
    if ws.len() > 0 {
        lemma_sum_weights_bound(ws.drop_last());
    }
}

/// With every weight at least one, the total is at least the number
/// of keys.
pub proof fn lemma_sum_weights_lower(ws: Seq<(MultiKey, u8)>)
    requires
        forall|i: int| 0 <= i < ws.len() ==> ws[i].1 >= 1,
    ensures
        sum_weights(ws) >= ws.len(),
    decreases ws.len(),
{
    if ws.len() > 0 {
        lemma_sum_weights_lower(ws.drop_last());
    }
}

/// The authorized weight is a sub-sum of the total weight.
pub proof fn lemma_auth_weight_le_total(
    ws: Seq<(MultiKey, u8)>,
    sigs: Seq<Signature>,
    verdicts: Seq<bool>,
)
    ensures
        auth_weight(ws, sigs, verdicts) <= sum_weights(ws),
    decreases ws.len(),
{
    if ws.len() > 0 {
        lemma_auth_weight_le_total(ws.drop_last(), sigs, verdicts);
    }
}

/// Adding one more signature (with whatever verdict) never decreases
/// the authorized weight; read right to left, removing one never
/// increases it.
pub proof fn lemma_auth_weight_monotonic(
    ws: Seq<(MultiKey, u8)>,
    sigs: Seq<Signature>,
    verdicts: Seq<bool>,
    s: Signature,
    v: bool,
)
    requires
        sigs.len() == verdicts.len(),
    ensures
        auth_weight(ws, sigs, verdicts) <= auth_weight(ws, sigs.push(s), verdicts.push(v)),
    decreases ws.len(),
{
    if ws.len() > 0 {
        lemma_auth_weight_monotonic(ws.drop_last(), sigs, verdicts, s, v);
        let k = ws.last().0;
        if key_signed(sigs, verdicts, k) {
            let i = choose|i: int| 0 <= i < sigs.len() && verdicts[i] && key_eq_spec(sigs[i].key, k);
            assert(sigs.push(s)[i] == sigs[i]);
            assert(verdicts.push(v)[i] == verdicts[i]);
            assert(key_signed(sigs.push(s), verdicts.push(v), k));
        }
    }
}

/// Threshold satisfaction is monotonic in the signature set: a
/// block that meets its threshold still meets it after one more
/// signature arrives, whatever its verdict; read right to left,
/// removing a signature never turns an unmet threshold into a met
/// one.
pub proof fn lemma_threshold_monotone_in_signatures(
    c: SignSettings,
    cat: ActionCategory,
    sigs: Seq<Signature>,
    verdicts: Seq<bool>,
    s: Signature,
    v: bool,
)
    requires
        sigs.len() == verdicts.len(),
        meets_threshold_spec(c, cat, auth_weight(c.weights@, sigs, verdicts)),
    ensures
        meets_threshold_spec(
            c,
            cat,
            auth_weight(c.weights@, sigs.push(s), verdicts.push(v)),
        ),
{
    lemma_auth_weight_monotonic(c.weights@, sigs, verdicts, s, v);
    lemma_meets_threshold_monotonic(
        c,
        cat,
        auth_weight(c.weights@, sigs, verdicts),
        auth_weight(c.weights@, sigs.push(s), verdicts.push(v)),
    );
}

/// A weight that meets a threshold still meets it after growing.
pub proof fn lemma_meets_threshold_monotonic(
    c: SignSettings,
    cat: ActionCategory,
    w1: nat,
    w2: nat,
)
    requires
        w1 <= w2,
        meets_threshold_spec(c, cat, w1),
    ensures
        meets_threshold_spec(c, cat, w2),
{
    let den = lookup_spec(c, cat).1 as nat;
    assert(w2 * den >= w1 * den) by (nonlinear_arith)
        requires w1 <= w2
    ;
}

/// A fraction above one can never be satisfied: under a valid
/// configuration, no achievable weight (a sub-sum of the total) meets
/// a rule whose numerator exceeds its denominator.
pub proof fn lemma_overunity_never_met(c: SignSettings, cat: ActionCategory, w: nat)
    requires
        config_valid(c),
        lookup_spec(c, cat).0 > lookup_spec(c, cat).1,
        w <= sum_weights(c.weights@),
    ensures
        !meets_threshold_spec(c, cat, w),
{
    let num = lookup_spec(c, cat).0 as nat;
    let den = lookup_spec(c, cat).1 as nat;
    let total = sum_weights(c.weights@);
    lemma_sum_weights_lower(c.weights@);
    assert(total >= 1);
    assert(w * den < total * num) by (nonlinear_arith)
        requires w <= total, den < num, total >= 1
    ;
}

/// A threshold table with a zero-valued fraction anywhere makes the
/// whole configuration invalid, regardless of every other field.
pub proof fn lemma_zero_fraction_invalid(c: SignSettings, i: int)
    requires
        0 <= i < c.thresholds@.len(),
        c.thresholds@[i].spec_fraction().0 == 0 || c.thresholds@[i].spec_fraction().1 == 0,
    ensures
        !config_valid(c),
{
}

/// Decides `config_valid`: `Ok` iff the configuration is valid, and
/// the only error it ever reports is `InvalidConfig`.
pub fn validate_config(c: &SignSettings) -> (r: Result<(), ChainError>)
    ensures
        r is Ok <==> config_valid(*c),
        r is Err ==> r->Err_0 == ChainError::InvalidConfig,
{
    if c.weights.len() == 0 {
        return Err(ChainError::InvalidConfig);
    }
    let mut i: usize = 0;
    while i < c.weights.len()
        invariant
            0 <= i <= c.weights@.len(),
            forall|j: int| 0 <= j < i ==> c.weights@[j].1 >= 1,
            forall|a: int, b: int|
                0 <= a < b < c.weights@.len() && b < i ==> !key_eq_spec(
                    c.weights@[a].0,
                    c.weights@[b].0,
                ),
        decreases c.weights@.len() - i,
    {
        if c.weights[i].1 == 0 {
            return Err(ChainError::InvalidConfig);
        }
        let mut j: usize = 0;
        while j < i
            invariant
                0 <= j <= i < c.weights@.len(),
                forall|a: int| 0 <= a < j ==> !key_eq_spec(c.weights@[a].0, c.weights@[i as int].0),
            decreases i - j,
        {
            if key_eq(&c.weights[j].0, &c.weights[i].0) {
                return Err(ChainError::InvalidConfig);
            }
            j += 1;
        }
        i += 1;
    }
    let mut k: usize = 0;
    while k < c.thresholds.len()
        invariant
            0 <= k <= c.thresholds@.len(),
            forall|j: int|
                0 <= j < k ==> c.thresholds@[j].spec_fraction().0 >= 1
                    && c.thresholds@[j].spec_fraction().1 >= 1,
        decreases c.thresholds@.len() - k,
    {
        let f = c.thresholds[k].fraction();
        if f.0 == 0 || f.1 == 0 {
            return Err(ChainError::InvalidConfig);
        }
        k += 1;
    }
    Ok(())
}

/// Resolves the fraction that governs `cat` under `c`: first match
/// wins, the first `All` rule is the fallback, 1/1 the default.
pub fn lookup_threshold(c: &SignSettings, cat: ActionCategory) -> (r: (u8, u8))
    ensures
        r == lookup_spec(*c, cat),
{
    match scan_for(&c.thresholds, cat) {
        Some(f) => f,
        None => match scan_for(&c.thresholds, ActionCategory::All) {
            Some(f) => f,
            None => (1u8, 1u8),
        },
    }
}

/// The first rule for `cat` in the table, if any.
fn scan_for(ths: &Vec<AuthThreshold>, cat: ActionCategory) -> (r: Option<(u8, u8)>)
    ensures
        r == first_match(ths@, cat),
{
    let mut i: usize = 0;
    proof {
        assert(ths@.skip(0) =~= ths@);
    }
    while i < ths.len()
        invariant
            0 <= i <= ths@.len(),
            first_match(ths@, cat) == first_match(ths@.skip(i as int), cat),
        decreases ths@.len() - i,
    {
        let c = ths[i].category();
        proof {
            assert(ths@.skip(i as int)[0] == ths@[i as int]);
        }
        if category_same(c, cat) {
            return Some(ths[i].fraction());
        }
        proof {
            assert(ths@.skip(i as int).skip(1) =~= ths@.skip(i as int + 1));
        }
        i += 1;
    }
    proof {
        assert(ths@.skip(i as int).len() == 0);
    }
    None
}

/// Category equality as a verified decision.
pub fn category_same(a: ActionCategory, b: ActionCategory) -> (r: bool)
    ensures
        r == (a == b),
{
    match (a, b) {
        (ActionCategory::Cipher, ActionCategory::Cipher) => true,
        (ActionCategory::Public, ActionCategory::Public) => true,
        (ActionCategory::Upgrade, ActionCategory::Upgrade) => true,
        (ActionCategory::Snapshot, ActionCategory::Snapshot) => true,
        (ActionCategory::Merge, ActionCategory::Merge) => true,
        (ActionCategory::All, ActionCategory::All) => true,
        _ => false,
    }
}

/// The total weight of the configuration's key set.
pub fn total_weight(c: &SignSettings) -> (r: u128)
    ensures
        r == sum_weights(c.weights@),
        r <= 255 * c.weights@.len(),
{
    let mut acc: u128 = 0;
    let mut i: usize = 0;
    while i < c.weights.len()
        invariant
            0 <= i <= c.weights@.len(),
            acc == sum_weights(c.weights@.take(i as int)),
            acc <= 255 * i,
        decreases c.weights@.len() - i,
    {
        proof {
            assert(c.weights@.take(i as int + 1).drop_last() =~= c.weights@.take(i as int));
            assert(c.weights@.take(i as int + 1).last() == c.weights@[i as int]);
        }
        acc = acc + c.weights[i].1 as u128;
        i += 1;
    }
    proof {
        assert(c.weights@.take(c.weights@.len() as int) =~= c.weights@);
    }
    acc
}

/// Whether any signature in `sigs` claims `k` and carries a positive
/// verdict.
fn signed_by(sigs: &Vec<Signature>, verdicts: &Vec<bool>, k: &MultiKey) -> (r: bool)
    requires
        sigs@.len() == verdicts@.len(),
    ensures
        r == key_signed(sigs@, verdicts@, *k),
{
    let mut i: usize = 0;
    while i < sigs.len()
        invariant
            0 <= i <= sigs@.len(),
            sigs@.len() == verdicts@.len(),
            forall|j: int| 0 <= j < i ==> !(verdicts@[j] && key_eq_spec(sigs@[j].key, *k)),
        decreases sigs@.len() - i,
    {
        if verdicts[i] && key_eq(&sigs[i].key, k) {
            return true;
        }
        i += 1;
    }
    false
}

/// The summed weight the signatures carry under `c`: the weight of
/// each key with at least one cryptographically valid signature,
/// counted once. `verdicts[i]` is the signature provider's verdict
/// for `sigs[i]` over the block's signed bytes; a failed verdict
/// contributes zero weight but is not by itself fatal.
pub fn authorized_weight(c: &SignSettings, sigs: &Vec<Signature>, verdicts: &Vec<bool>) -> (r:
    u128)
    requires
        sigs@.len() == verdicts@.len(),
    ensures
        r == auth_weight(c.weights@, sigs@, verdicts@),
        r <= sum_weights(c.weights@),
{
    let mut acc: u128 = 0;
    let mut i: usize = 0;
    while i < c.weights.len()
        invariant
            0 <= i <= c.weights@.len(),
            sigs@.len() == verdicts@.len(),
            acc == auth_weight(c.weights@.take(i as int), sigs@, verdicts@),
            acc <= 255 * i,
        decreases c.weights@.len() - i,
    {
        proof {
            assert(c.weights@.take(i as int + 1).drop_last() =~= c.weights@.take(i as int));
            assert(c.weights@.take(i as int + 1).last() == c.weights@[i as int]);
        }
        if signed_by(sigs, verdicts, &c.weights[i].0) {
            acc = acc + c.weights[i].1 as u128;
        }
        i += 1;
    }
    proof {
        assert(c.weights@.take(c.weights@.len() as int) =~= c.weights@);
        lemma_auth_weight_le_total(c.weights@, sigs@, verdicts@);
    }
    acc
}

/// Whether `weight` meets the threshold `cat` resolves to under `c`:
/// `weight * denominator >= total * numerator`, in exact integers.
/// `weight` must be achievable, that is, no more than the total
/// weight; `authorized_weight` guarantees that of its result.
pub fn meets_threshold(c: &SignSettings, cat: ActionCategory, weight: u128) -> (r: bool)
    requires
        weight <= sum_weights(c.weights@),
    ensures
        r == meets_threshold_spec(*c, cat, weight as nat),
{
    let (num, den) = lookup_threshold(c, cat);
    let total = total_weight(c);
    let n = c.weights.len();
    proof {
        lemma_sum_weights_bound(c.weights@);
        let ln = c.weights@.len() as int;
        assert(ln == n as int);
        assert(weight <= 255 * ln);
        assert(weight * (den as int) <= 255 * ln * 255) by (nonlinear_arith)
            requires weight <= 255 * ln, den <= 255, 0 <= ln
        ;
        assert(total * (num as int) <= 255 * ln * 255) by (nonlinear_arith)
            requires total <= 255 * ln, num <= 255, 0 <= ln
        ;
        assert(255 * ln * 255 < u128::MAX) by (nonlinear_arith)
            requires 0 <= ln <= usize::MAX
        ;
    }
    weight * (den as u128) >= total * (num as u128)
}

} // verus!
