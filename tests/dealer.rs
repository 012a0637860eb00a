use frost_session::trusted_dealer::{accept_signature, sign, Coordinator, SignError};

#[test]
fn dealer_signature_verifies_only_for_its_message() {
    let coordinator = match Coordinator::generate(5, 3) {
        Ok(c) => c,
        Err(_) => panic!("dealer failed"),
    };
    assert_eq!(coordinator.participiants.len(), 5);
    let pk = coordinator.public_key_package.clone();
    let signature = match coordinator.sign(b"random message") {
        Ok(s) => s,
        Err(_) => panic!("signing failed"),
    };
    assert!(pk.verifies(b"random message", &signature));
    assert!(!pk.verifies(b"random messagf", &signature));
    assert!(!pk.verifies(b"Random message", &signature));
}

#[test]
fn dealer_sign_entry_point_succeeds() {
    assert!(sign(b"random message", 5, 3).is_ok());
}

#[test]
fn dealer_with_min_equal_to_max_signs() {
    assert!(sign(b"random message", 5, 5).is_ok());
    assert!(sign(b"random message", 2, 2).is_ok());
}

#[test]
fn dealer_rejects_bad_thresholds() {
    assert!(matches!(sign(b"m", 5, 0), Err(SignError::Crypto(_))));
    assert!(matches!(sign(b"m", 5, 1), Err(SignError::Crypto(_))));
    assert!(matches!(sign(b"m", 3, 4), Err(SignError::Crypto(_))));
    assert!(Coordinator::generate(1, 1).is_err());
}

#[test]
fn participants_hold_no_nonces_before_signing() {
    let coordinator = match Coordinator::generate(4, 2) {
        Ok(c) => c,
        Err(_) => panic!("dealer failed"),
    };
    assert!(coordinator.participiants.iter().all(|p| p.nonces.is_none()));
    for (i, p) in coordinator.participiants.iter().enumerate() {
        for q in &coordinator.participiants[i + 1..] {
            assert!(!p.id.same_as(&q.id));
        }
    }
}

#[test]
fn round1_stores_nonces() {
    let mut coordinator = match Coordinator::generate(3, 2) {
        Ok(c) => c,
        Err(_) => panic!("dealer failed"),
    };
    let p = &mut coordinator.participiants[0];
    let _ = p.round1();
    assert!(p.nonces.is_some());
}

#[test]
fn duplicate_identifiers_are_refused() {
    let coordinator = match Coordinator::generate(3, 2) {
        Ok(c) => c,
        Err(_) => panic!("dealer failed"),
    };
    let pk = coordinator.public_key_package.clone();
    let mut ps = coordinator.participiants.into_iter();
    let a = ps.next().unwrap();
    let b = ps.next().unwrap();
    let pairs = vec![(a.id.clone(), a.key_package), (a.id.clone(), b.key_package)];
    assert!(Coordinator::from_key_packages(pk, pairs).is_none());
}

#[test]
fn failed_verification_is_reported() {
    for valid in [false, true] {
        let signature = match sign(b"x", 3, 2) {
            Ok(s) => s,
            Err(_) => panic!("signing failed"),
        };
        let r = accept_signature(valid, signature);
        if valid {
            assert!(r.is_ok());
        } else {
            assert!(matches!(r, Err(SignError::VerificationFailure)));
        }
    }
}

#[test]
fn dealer_accepts_min_equal_to_max() {
    match Coordinator::generate(5, 5) {
        Ok(c) => assert_eq!(c.participiants.len(), 5),
        Err(_) => panic!("a 5-of-5 split must succeed"),
    }
}
