use cashu_broker::adaptor;
use schnorr_fun::adaptor::Adaptor;
use schnorr_fun::fun::marker::{NonZero, Normal, Public, Secret};
use schnorr_fun::nonce::Deterministic;
use schnorr_fun::Schnorr;
use sha2::Sha256;

#[test]
fn random_scalars_are_valid_and_distinct() {
    let a = adaptor::random_scalar();
    let b = adaptor::random_scalar();
    assert_eq!(a.len(), 32);
    assert!(adaptor::scalar_check(&a));
    assert!(adaptor::scalar_check(&b));
    assert_ne!(a, b);
    // All zeros is the zero scalar and is rejected.
    assert!(!adaptor::scalar_check(&vec![0u8; 32]));
    // The group order itself is out of range.
    let order: Vec<u8> = vec![
        0xff, 0xff, 0xff, 0xff, 0xff, 0xff, 0xff, 0xff, 0xff, 0xff, 0xff, 0xff, 0xff, 0xff,
        0xff, 0xfe, 0xba, 0xae, 0xdc, 0xe6, 0xaf, 0x48, 0xa0, 0x3b, 0xbf, 0xd2, 0x5e, 0x8c,
        0xd0, 0x36, 0x41, 0x41,
    ];
    assert!(!adaptor::scalar_check(&order));
    assert!(adaptor::scalar_check(&{
        let mut one = vec![0u8; 32];
        one[31] = 1;
        one
    }));
}

#[test]
fn points_serialize_compressed_and_parse_back() {
    let sk = adaptor::random_scalar();
    let pk = adaptor::point_from_secret(&sk).unwrap();
    assert_eq!(pk.len(), 33);
    assert!(pk[0] == 0x02 || pk[0] == 0x03);
    assert!(adaptor::point_check(&pk));
    // A mangled prefix is not a point.
    let mut bad = pk.clone();
    bad[0] = 0x05;
    assert!(!adaptor::point_check(&bad));
    assert!(!adaptor::point_check(&vec![2u8; 5]));
    // A garbage secret yields no point.
    assert!(adaptor::point_from_secret(&vec![0u8; 32]).is_none());
    assert!(adaptor::point_from_secret(&vec![1u8; 3]).is_none());
}

#[test]
fn point_addition_is_commutative_and_changes_the_point() {
    let a = adaptor::point_from_secret(&adaptor::random_scalar()).unwrap();
    let b = adaptor::point_from_secret(&adaptor::random_scalar()).unwrap();
    let ab = adaptor::point_add(&a, &b).unwrap();
    let ba = adaptor::point_add(&b, &a).unwrap();
    assert_eq!(ab, ba);
    assert_ne!(ab, a);
    assert_ne!(ab, b);
    assert!(adaptor::point_add(&a, &vec![0u8; 33]).is_none());
}

#[test]
fn scalar_addition_matches_the_curve() {
    // (x + y) * G == x * G + y * G.
    let x = adaptor::random_scalar();
    let y = adaptor::random_scalar();
    let s = adaptor::scalar_add(&x, &y).unwrap();
    let lhs = adaptor::point_from_secret(&s).unwrap();
    let rhs = adaptor::point_add(
        &adaptor::point_from_secret(&x).unwrap(),
        &adaptor::point_from_secret(&y).unwrap(),
    )
    .unwrap();
    assert_eq!(lhs, rhs);
}

#[test]
fn encrypted_signature_verifies_under_signer_and_point() {
    let sk = adaptor::random_scalar();
    let pk = adaptor::point_from_secret(&sk).unwrap();
    let t_secret = adaptor::random_scalar();
    let t_point = adaptor::point_from_secret(&t_secret).unwrap();
    let msg: Vec<u8> = b"swap-binding".to_vec();

    let enc = adaptor::adaptor_sign(&sk, &t_point, &msg).unwrap();
    assert_eq!(enc.r_xonly.len(), 32);
    assert_eq!(enc.s_hat.len(), 32);
    assert!(adaptor::verify_encrypted_signature(&pk, &t_point, &msg, &enc));
    // Another message or another encryption point must not verify.
    let other: Vec<u8> = b"other-binding".to_vec();
    assert!(!adaptor::verify_encrypted_signature(&pk, &t_point, &other, &enc));
    let t2 = adaptor::point_from_secret(&adaptor::random_scalar()).unwrap();
    assert!(!adaptor::verify_encrypted_signature(&pk, &t2, &msg, &enc));
}

#[test]
fn adaptor_secret_recovery_round_trip() {
    // Decrypting an encrypted signature and publishing the result reveals
    // exactly the adaptor secret — never its negation, never another value.
    for i in 0..200 {
        let sk = adaptor::random_scalar();
        let t_secret = adaptor::random_scalar();
        let t_point = adaptor::point_from_secret(&t_secret).unwrap();
        let msg: Vec<u8> = format!("trial {}", i).into_bytes();

        let enc = adaptor::adaptor_sign(&sk, &t_point, &msg).unwrap();
        let recovered = adaptor::recover_from_decryption(&t_secret, &enc).unwrap();
        assert_eq!(recovered, t_secret);
    }
}

#[test]
fn recovery_steps_match_schnorr_fun_directly() {
    // The same round trip, with the decryption and recovery steps taken
    // one by one against schnorr_fun's own API.
    let sk = adaptor::random_scalar();
    let t_secret = adaptor::random_scalar();
    let t_point = adaptor::point_from_secret(&t_secret).unwrap();
    let msg: Vec<u8> = b"cross-check".to_vec();

    let enc = adaptor::adaptor_sign(&sk, &t_point, &msg).unwrap();
    let sig = adaptor::decrypt_signature(&t_secret, &enc).unwrap();
    assert_eq!(sig.len(), 64);
    let recovered = adaptor::recover_adaptor_secret(&t_point, &enc, &sig).unwrap();
    assert_eq!(recovered, t_secret);

    // The library's point derivation agrees with the crate's.
    let schnorr = Schnorr::<Sha256, Deterministic<Sha256>>::default();
    let y = schnorr_fun::fun::Scalar::<Secret, NonZero>::from_slice(&t_secret).unwrap();
    let expected = schnorr.encryption_key_for(&y);
    let parsed =
        schnorr_fun::fun::Point::<Normal, Public, NonZero>::from_slice(&t_point).unwrap();
    assert_eq!(parsed, expected);

    // The decrypted signature is itself a valid plain Schnorr signature
    // under the signer's key on the tagged message, as schnorr_fun's own
    // verifier judges it.
    let pk = adaptor::point_from_secret(&sk).unwrap();
    let pk_pt = schnorr_fun::fun::Point::<Normal, Public, NonZero>::from_slice(&pk).unwrap();
    let pk_even: schnorr_fun::fun::Point<schnorr_fun::fun::marker::EvenY> =
        schnorr_fun::fun::Point::from_xonly_bytes(pk_pt.to_xonly_bytes()).unwrap();
    let sig_r: schnorr_fun::fun::Point<schnorr_fun::fun::marker::EvenY> =
        schnorr_fun::fun::Point::from_xonly_bytes(sig[0..32].try_into().unwrap()).unwrap();
    let sig_s =
        schnorr_fun::fun::Scalar::<Public, schnorr_fun::fun::marker::Zero>::from_slice(
            &sig[32..64],
        )
        .unwrap();
    let plain = schnorr_fun::Signature { R: sig_r, s: sig_s };
    assert!(schnorr.verify(
        &pk_even,
        schnorr_fun::Message::<Public>::plain("cashu-swap", &msg),
        &plain
    ));
}

#[test]
fn recovery_rejects_a_foreign_signature() {
    let sk = adaptor::random_scalar();
    let t_secret = adaptor::random_scalar();
    let t_point = adaptor::point_from_secret(&t_secret).unwrap();
    let msg: Vec<u8> = b"m".to_vec();
    let enc = adaptor::adaptor_sign(&sk, &t_point, &msg).unwrap();

    // A signature decrypted with a different secret does not recover
    // against this encryption point.
    let other_secret = adaptor::random_scalar();
    let foreign = adaptor::decrypt_signature(&other_secret, &enc).unwrap();
    assert!(adaptor::recover_adaptor_secret(&t_point, &enc, &foreign).is_none());
}
