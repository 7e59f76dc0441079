use bedrock_ppss::error::PpssError;
use bedrock_ppss::field::Scalar;
use bedrock_ppss::shamir::{recover, share};

fn sc(v: u64) -> Scalar {
    let mut bytes = [0u8; 32];
    bytes[..8].copy_from_slice(&v.to_le_bytes());
    Scalar { bytes }
}

fn subsets(n: usize, k: usize) -> Vec<Vec<usize>> {
    let mut out = Vec::new();
    for mask in 0u32..(1u32 << n) {
        if mask.count_ones() as usize == k {
            out.push((0..n).filter(|i| mask & (1 << i) != 0).collect());
        }
    }
    out
}

#[test]
fn share_evaluates_polynomial_at_one_to_n() {
    // p(x) = 5 + 2x + 3x^2
    let shares = share(&sc(5), &vec![sc(2), sc(3)], 3, 4).unwrap();
    assert_eq!(shares.len(), 4);
    let expected = [10u64, 21, 38, 61];
    for (i, (x, y)) in shares.iter().enumerate() {
        assert_eq!(x.bytes, sc(i as u64 + 1).bytes);
        assert_eq!(y.bytes, sc(expected[i]).bytes);
    }
}

#[test]
fn shamir_round_trip_every_threshold_subset() {
    let secret = sc(0xdead_beef_1234);
    let coefficients = vec![sc(77), sc(1 << 40), sc(999_999)];
    let shares = share(&secret, &coefficients, 4, 7).unwrap();
    for subset in subsets(7, 4) {
        let picked: Vec<(Scalar, Scalar)> = subset.iter().map(|&i| shares[i]).collect();
        assert_eq!(recover(&picked).unwrap().bytes, secret.bytes);
    }
    assert_eq!(recover(&shares).unwrap().bytes, secret.bytes);
}

#[test]
fn shamir_round_trip_twenty_parties() {
    let secret = sc(31337);
    let coefficients: Vec<Scalar> = (1..20u64).map(|c| sc(c * 1_000_003)).collect();
    let shares = share(&secret, &coefficients, 20, 20).unwrap();
    assert_eq!(recover(&shares).unwrap().bytes, secret.bytes);
}

#[test]
fn shamir_threshold_one_gives_secret_everywhere() {
    let shares = share(&sc(8), &vec![], 1, 3).unwrap();
    for s in &shares {
        assert_eq!(s.1.bytes, sc(8).bytes);
        assert_eq!(recover(&vec![*s]).unwrap().bytes, sc(8).bytes);
    }
}

#[test]
fn shamir_under_threshold_gives_another_value() {
    let secret = sc(123_456_789);
    let coefficients = vec![sc(5), sc(6)];
    let shares = share(&secret, &coefficients, 3, 5).unwrap();
    for subset in subsets(5, 2) {
        let picked: Vec<(Scalar, Scalar)> = subset.iter().map(|&i| shares[i]).collect();
        assert_ne!(recover(&picked).unwrap().bytes, secret.bytes);
    }
}

#[test]
fn share_rejects_bad_parameters() {
    assert_eq!(share(&sc(1), &vec![], 0, 3).unwrap_err(), PpssError::InvalidParameters);
    assert_eq!(share(&sc(1), &vec![sc(1); 3], 4, 3).unwrap_err(), PpssError::InvalidParameters);
    assert_eq!(share(&sc(1), &vec![sc(1)], 3, 5).unwrap_err(), PpssError::InvalidParameters);
}

#[test]
fn recover_rejects_duplicate_indices() {
    let shares = vec![(sc(1), sc(4)), (sc(2), sc(5)), (sc(1), sc(6))];
    assert_eq!(recover(&shares).unwrap_err(), PpssError::InterpolationError);
}

#[test]
fn recover_of_nothing_is_zero() {
    assert_eq!(recover(&vec![]).unwrap().bytes, [0u8; 32]);
}
