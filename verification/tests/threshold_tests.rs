use sigchain::protocol::{
    ActionCategory, AuthThreshold, KeyAlgo, MultiKey, SignSettings, Signature,
};
use sigchain::threshold::{
    authorized_weight, lookup_threshold, meets_threshold, total_weight, validate_config,
};
use sigchain::ChainError;

fn key(tag: u8) -> MultiKey {
    MultiKey { alg: KeyAlgo::Ed25519, key: vec![tag; 4] }
}

fn sig_by(tag: u8) -> Signature {
    Signature { key: key(tag), sig: vec![0xAA, tag] }
}

fn two_key_config() -> SignSettings {
    // A has weight 3, B has weight 2, total 5; Public needs 3/5.
    SignSettings {
        weights: vec![(key(1), 3), (key(2), 2)],
        thresholds: vec![AuthThreshold::Public((3, 5))],
    }
}

#[test]
fn weighted_example_a_alone_meets_public_threshold() {
    let c = two_key_config();
    assert_eq!(total_weight(&c), 5);
    let sigs = vec![sig_by(1)];
    let verdicts = vec![true];
    let w = authorized_weight(&c, &sigs, &verdicts);
    assert_eq!(w, 3);
    // 3 * 5 >= 5 * 3
    assert!(meets_threshold(&c, ActionCategory::Public, w));
}

#[test]
fn weighted_example_b_alone_misses_public_threshold() {
    let c = two_key_config();
    let sigs = vec![sig_by(2)];
    let verdicts = vec![true];
    let w = authorized_weight(&c, &sigs, &verdicts);
    assert_eq!(w, 2);
    // 2 * 5 = 10 < 15 = 5 * 3
    assert!(!meets_threshold(&c, ActionCategory::Public, w));
}

#[test]
fn adding_a_signature_never_lowers_the_weight() {
    let c = two_key_config();
    let mut sigs = vec![sig_by(2)];
    let mut verdicts = vec![true];
    let w1 = authorized_weight(&c, &sigs, &verdicts);
    sigs.push(sig_by(1));
    verdicts.push(true);
    let w2 = authorized_weight(&c, &sigs, &verdicts);
    assert!(w2 >= w1);
    assert_eq!(w2, 5);
    // A failed verdict adds nothing but removes nothing either.
    sigs.push(sig_by(2));
    verdicts.push(false);
    let w3 = authorized_weight(&c, &sigs, &verdicts);
    assert!(w3 >= w2);
    assert_eq!(w3, 5);
}

#[test]
fn duplicate_valid_signatures_count_once() {
    let c = two_key_config();
    let sigs = vec![sig_by(1), sig_by(1), sig_by(1)];
    let verdicts = vec![true, true, true];
    assert_eq!(authorized_weight(&c, &sigs, &verdicts), 3);
}

#[test]
fn failed_verdicts_contribute_zero_weight() {
    let c = two_key_config();
    let sigs = vec![sig_by(1), sig_by(2)];
    let verdicts = vec![false, false];
    assert_eq!(authorized_weight(&c, &sigs, &verdicts), 0);
    assert!(!meets_threshold(&c, ActionCategory::Public, 0));
}

#[test]
fn unknown_key_contributes_nothing() {
    let c = two_key_config();
    let sigs = vec![sig_by(9)];
    let verdicts = vec![true];
    assert_eq!(authorized_weight(&c, &sigs, &verdicts), 0);
}

#[test]
fn zero_numerator_makes_config_invalid() {
    let c = SignSettings {
        weights: vec![(key(1), 3)],
        thresholds: vec![AuthThreshold::Public((0, 5))],
    };
    assert_eq!(validate_config(&c), Err(ChainError::InvalidConfig));
}

#[test]
fn zero_denominator_makes_config_invalid() {
    let c = SignSettings {
        weights: vec![(key(1), 3)],
        thresholds: vec![AuthThreshold::All((1, 0))],
    };
    assert_eq!(validate_config(&c), Err(ChainError::InvalidConfig));
}

#[test]
fn zero_fraction_invalid_regardless_of_other_fields() {
    // Plenty of healthy rules around the broken one change nothing.
    let c = SignSettings {
        weights: vec![(key(1), 255), (key(2), 1)],
        thresholds: vec![
            AuthThreshold::Public((1, 1)),
            AuthThreshold::Merge((0, 0)),
            AuthThreshold::All((1, 2)),
        ],
    };
    assert_eq!(validate_config(&c), Err(ChainError::InvalidConfig));
}

#[test]
fn empty_key_set_is_invalid() {
    let c = SignSettings { weights: vec![], thresholds: vec![] };
    assert_eq!(validate_config(&c), Err(ChainError::InvalidConfig));
}

#[test]
fn duplicate_key_is_invalid() {
    let c = SignSettings { weights: vec![(key(1), 1), (key(1), 2)], thresholds: vec![] };
    assert_eq!(validate_config(&c), Err(ChainError::InvalidConfig));
}

#[test]
fn zero_weight_is_invalid() {
    let c = SignSettings { weights: vec![(key(1), 0)], thresholds: vec![] };
    assert_eq!(validate_config(&c), Err(ChainError::InvalidConfig));
}

#[test]
fn sound_config_is_valid() {
    let c = two_key_config();
    assert_eq!(validate_config(&c), Ok(()));
}

#[test]
fn fraction_above_one_is_never_satisfiable() {
    let c = SignSettings {
        weights: vec![(key(1), 3), (key(2), 2)],
        thresholds: vec![AuthThreshold::All((2, 1))],
    };
    assert_eq!(validate_config(&c), Ok(()));
    // No achievable weight (a sub-sum of the total 5) can meet 2/1.
    for w in 0..=5u128 {
        assert!(!meets_threshold(&c, ActionCategory::Public, w));
    }
}

#[test]
fn first_matching_rule_wins() {
    let c = SignSettings {
        weights: vec![(key(1), 1)],
        thresholds: vec![
            AuthThreshold::Public((1, 2)),
            AuthThreshold::Public((2, 2)),
            AuthThreshold::All((1, 3)),
        ],
    };
    assert_eq!(lookup_threshold(&c, ActionCategory::Public), (1, 2));
    // An unmatched category falls back to the first All rule.
    assert_eq!(lookup_threshold(&c, ActionCategory::Merge), (1, 3));
}

#[test]
fn unmatched_category_without_all_rule_needs_everything() {
    let c = SignSettings { weights: vec![(key(1), 1)], thresholds: vec![] };
    assert_eq!(lookup_threshold(&c, ActionCategory::Snapshot), (1, 1));
}
