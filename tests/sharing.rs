use tpea::error::TpeaError;
use tpea::poly::{eval_poly, recover_secret, split_secret, split_with_coefficients, Share};
use tpea::strategy::ChunkType;

fn pick(shares: &[Share], ids: &[u8]) -> Vec<Share> {
    ids.iter().map(|id| shares.iter().find(|s| s.id == *id).unwrap().clone()).collect()
}

#[test]
fn eval_poly_values() {
    assert_eq!(eval_poly(&[], 9), 0);
    assert_eq!(eval_poly(&[5], 200), 5);
    assert_eq!(eval_poly(&[1, 1], 2), 3);
    assert_eq!(eval_poly(&[0, 0, 1], 2), 4);
    assert_eq!(eval_poly(&[1, 2, 3], 1), 0);
    assert_eq!(eval_poly(&[0x11, 0x22, 0x33], 0), 0x11);
}

#[test]
fn split_with_fixed_coefficients() {
    let shares = split_with_coefficients(&[42], 2, 3, &vec![vec![7]]);
    assert_eq!(shares.len(), 3);
    assert_eq!(shares[0].id, 1);
    assert_eq!(shares[0].data, vec![45]);
    assert_eq!(shares[1].id, 2);
    assert_eq!(shares[1].data, vec![36]);
    assert_eq!(shares[2].id, 3);
    assert_eq!(shares[2].data, vec![35]);
    assert!(matches!(shares[0].typ, ChunkType::SignificantSliceDerived1));
    assert_eq!(recover_secret(&shares[1..]), Ok(vec![42]));
}

#[test]
fn split_rejects_bad_thresholds() {
    assert!(matches!(split_secret(&[1, 2], 1, 3), Err(TpeaError::InvalidThreshold)));
    assert!(matches!(split_secret(&[1, 2], 0, 3), Err(TpeaError::InvalidThreshold)));
    assert!(matches!(split_secret(&[1, 2], 4, 3), Err(TpeaError::InvalidThreshold)));
}

#[test]
fn scenario_single_byte_two_of_three() {
    let shares = split_secret(&[42], 2, 3).unwrap();
    assert_eq!(shares.len(), 3);
    let ids: Vec<u8> = shares.iter().map(|s| s.id).collect();
    assert_eq!(ids, vec![1, 2, 3]);
    for s in &shares {
        assert_eq!(s.data.len(), 1);
    }
    assert_eq!(recover_secret(&pick(&shares, &[1, 3])), Ok(vec![42]));
    assert_eq!(recover_secret(&pick(&shares, &[2, 3])), Ok(vec![42]));
    let alone = recover_secret(&pick(&shares, &[1])).unwrap();
    assert_eq!(alone.len(), 1);
}

#[test]
fn round_trip_every_subset() {
    let secret = b"threshold secret".to_vec();
    let shares = split_secret(&secret, 3, 5).unwrap();
    assert_eq!(shares.len(), 5);
    for a in 1..=5u8 {
        for b in (a + 1)..=5 {
            for c in (b + 1)..=5 {
                assert_eq!(recover_secret(&pick(&shares, &[c, a, b])), Ok(secret.clone()));
            }
        }
    }
    assert_eq!(recover_secret(&shares), Ok(secret.clone()));
}

#[test]
fn round_trip_empty_secret() {
    let shares = split_secret(&[], 2, 2).unwrap();
    assert_eq!(shares.len(), 2);
    assert_eq!(recover_secret(&shares), Ok(vec![]));
}

#[test]
fn round_trip_largest_share_count() {
    let secret = vec![0u8, 1, 255, 128];
    let shares = split_secret(&secret, 255, 255).unwrap();
    assert_eq!(shares.len(), 255);
    assert_eq!(shares[254].id, 255);
    assert_eq!(recover_secret(&shares), Ok(secret));
}

#[test]
fn too_few_shares_give_output_of_right_length() {
    let secret = vec![9u8, 8, 7, 6];
    let shares = split_secret(&secret, 4, 6).unwrap();
    let out = recover_secret(&pick(&shares, &[2, 4, 6])).unwrap();
    assert_eq!(out.len(), secret.len());
}

#[test]
fn recover_rejects_empty_set() {
    assert_eq!(recover_secret(&[]), Err(TpeaError::EmptyShareSet));
}

#[test]
fn recover_rejects_duplicate_ids() {
    let shares = split_secret(&[1, 2, 3], 2, 3).unwrap();
    let dup = vec![shares[0].clone(), shares[1].clone(), shares[0].clone()];
    assert_eq!(recover_secret(&dup), Err(TpeaError::DuplicateShareID));
}

#[test]
fn recover_rejects_mismatched_lengths() {
    let shares = split_secret(&[1, 2, 3], 2, 3).unwrap();
    let mut short = shares[1].clone();
    short.data.pop();
    assert_eq!(
        recover_secret(&[shares[0].clone(), short]),
        Err(TpeaError::MismatchedShareLength)
    );
}
