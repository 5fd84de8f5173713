//! Schnorr adaptor-signature primitives over secp256k1.
//!
//! Scalars travel as 32-byte big-endian encodings and points as 33-byte
//! compressed SEC encodings; the curve arithmetic itself is performed by
//! `schnorr_fun` behind the trusted wrappers below. Every signed message is
//! domain-separated with the fixed tag `cashu-swap`.
//!
//! The central guarantee of the scheme, proved in
//! [`recover_from_decryption`]: whoever decrypts an encrypted signature with
//! the adaptor secret reveals, through the pair of signatures, exactly that
//! secret.

use vstd::prelude::*;
use schnorr_fun::adaptor::{Adaptor, EncryptedSign, EncryptedSignature};
use schnorr_fun::fun::{KeyPair, Point, Scalar};
use schnorr_fun::{Message, Schnorr, Signature};
use secp256kfun::marker::{EvenY, NonZero, Normal, Public, Secret, Zero};
use secp256kfun::nonce::Deterministic;
use sha2::Sha256;

verus! {

/// Declares `schnorr_fun`'s encrypted-signature type so a wrapper can
/// hand one to another; the library's verified code carries only the
/// plain-parts form [`EncSig`] and never looks inside a value of this type.
#[verifier::external_type_specification]
#[verifier::external_body]
#[verifier::reject_recursive_types(S)]
pub struct ExEncryptedSignature<S>(EncryptedSignature<S>);

/// Declares `secp256kfun`'s `Public` secrecy marker, which parameterizes
/// the encrypted-signature type.
#[verifier::external_type_specification]
#[verifier::external_body]
pub struct ExPublic(Public);

/// An encrypted (adaptor) Schnorr signature, in plain encoded parts:
/// the x-only nonce point, the encrypted response scalar, and whether the
/// decryptor must negate their key first.
pub struct EncSig {
    pub r_xonly: Vec<u8>,
    pub s_hat: Vec<u8>,
    pub needs_negation: bool,
}

impl EncSig {
    /// The two encoded parts have their fixed widths.
    pub open spec fn wf(self) -> bool {
        self.r_xonly@.len() == 32 && self.s_hat@.len() == 32
    }

    /// The parts parse back into a curve point and a scalar.
    pub open spec fn parses(self) -> bool {
        xonly_ok(self.r_xonly@) && zscalar_ok(self.s_hat@)
    }
}

impl View for EncSig {
    type V = Seq<u8>;

    /// Canonical byte view: nonce, response, then one negation flag byte.
    open spec fn view(&self) -> Seq<u8> {
        self.r_xonly@ + self.s_hat@ + seq![if self.needs_negation { 1u8 } else { 0u8 }]
    }
}

/// 32 bytes encode a valid non-zero secp256k1 scalar
/// (what `Scalar::from_slice` accepts).
pub uninterp spec fn scalar_ok(s: Seq<u8>) -> bool;

/// 32 bytes encode a valid secp256k1 scalar, zero allowed
/// (what a zero-marked `Scalar::from_slice` accepts).
pub uninterp spec fn zscalar_ok(s: Seq<u8>) -> bool;

/// 33 bytes encode a valid non-identity curve point in compressed SEC form
/// (what `Point::from_slice` accepts).
pub uninterp spec fn point_ok(p: Seq<u8>) -> bool;

/// 32 bytes are a valid x-only point encoding
/// (what `Point::from_xonly_bytes` accepts).
pub uninterp spec fn xonly_ok(b: Seq<u8>) -> bool;

/// Compressed encoding of `s * G` for the scalar encoded by `s`.
pub uninterp spec fn point_of(s: Seq<u8>) -> Seq<u8>;

/// Compressed encoding of the sum of two points; `None` when the sum is the
/// identity.
pub uninterp spec fn point_sum(p: Seq<u8>, q: Seq<u8>) -> Option<Seq<u8>>;

/// Encoding of the sum mod group order of two scalars; `None` when the sum
/// is zero.
pub uninterp spec fn scalar_sum(a: Seq<u8>, b: Seq<u8>) -> Option<Seq<u8>>;

/// Byte view of the encrypted signature produced by the deterministic
/// BIP-340 signer for this signing key, encryption point and message.
pub uninterp spec fn enc_sign_of(sk: Seq<u8>, t: Seq<u8>, msg: Seq<u8>) -> Seq<u8>;

/// 64-byte encoding of the plain signature obtained by decrypting the
/// encrypted signature `enc` with the scalar `y`.
pub uninterp spec fn decrypt_of(y: Seq<u8>, enc: Seq<u8>) -> Seq<u8>;

/// Whether the encrypted signature `enc` verifies for the given compressed
/// public key, encryption point and message.
pub uninterp spec fn verify_enc_of(pk: Seq<u8>, t: Seq<u8>, msg: Seq<u8>, enc: Seq<u8>) -> bool;

/// Whether a 64-byte plain signature verifies under the given compressed
/// public key and message (what `Schnorr::verify` returns, after the same
/// x-only lift of the key and the fixed domain tag).
pub uninterp spec fn verify_sig_of(pk: Seq<u8>, msg: Seq<u8>, sig: Seq<u8>) -> bool;

/// Byte view of an optional byte vector.
pub open spec fn opt_view(o: Option<Vec<u8>>) -> Option<Seq<u8>> {
    match o {
        Some(v) => Some(v@),
        None => None,
    }
}

/// Relies on `Scalar::random`: a uniformly random non-zero scalar, returned
/// in its canonical 32-byte encoding, which `Scalar::from_slice` accepts.
#[verifier::external_body]
pub fn random_scalar() -> (r: Vec<u8>)
    ensures
        r@.len() == 32,
        scalar_ok(r@),
{
    let s = Scalar::random(&mut rand::thread_rng());
    s.to_bytes().to_vec()
}

/// Relies on `Scalar::from_slice`: accepts exactly 32-byte encodings of a
/// non-zero scalar below the group order.
#[verifier::external_body]
pub fn scalar_check(b: &Vec<u8>) -> (r: bool)
    ensures
        r == scalar_ok(b@),
{
    Scalar::<Secret, NonZero>::from_slice(b).is_some()
}

/// Relies on `Point::from_slice`: accepts exactly 33-byte compressed SEC
/// encodings of a non-identity point.
#[verifier::external_body]
pub fn point_check(b: &Vec<u8>) -> (r: bool)
    ensures
        r == point_ok(b@),
{
    Point::<Normal, Public, NonZero>::from_slice(b).is_some()
}

/// Relies on `Adaptor::encryption_key_for` (`s * G`, normalized) and the
/// canonical compressed encoding of `Point::to_bytes`, which round-trips
/// through `Point::from_bytes`.
#[verifier::external_body]
pub fn point_from_secret(secret: &Vec<u8>) -> (r: Option<Vec<u8>>)
    ensures
        r is Some <==> scalar_ok(secret@),
        r matches Some(p) ==> p@ == point_of(secret@) && p@.len() == 33 && point_ok(p@),
{
    let s = Scalar::<Secret, NonZero>::from_slice(secret)?;
    let schnorr = Schnorr::<Sha256, Deterministic<Sha256>>::default();
    let p = schnorr.encryption_key_for(&s);
    Some(p.to_bytes().to_vec())
}

/// Relies on `op::point_add` with `normalize` and `non_zero`: the compressed
/// sum of two points, `None` exactly when the sum is the identity.
#[verifier::external_body]
pub fn point_add(p: &Vec<u8>, q: &Vec<u8>) -> (r: Option<Vec<u8>>)
    ensures
        point_ok(p@) && point_ok(q@) ==> opt_view(r) == point_sum(p@, q@),
        !(point_ok(p@) && point_ok(q@)) ==> r is None,
        r matches Some(v) ==> v@.len() == 33 && point_ok(v@),
{
    let a = Point::<Normal, Public, NonZero>::from_slice(p)?;
    let b = Point::<Normal, Public, NonZero>::from_slice(q)?;
    let s = secp256kfun::op::point_add(&a, &b).normalize().non_zero()?;
    Some(s.to_bytes().to_vec())
}

/// Relies on `op::scalar_add` with `non_zero`: the sum mod group order,
/// `None` exactly when the sum is zero. By the group law of the curve
/// backend, the sum scalar's point is the sum of the two points — and the
/// point sum is the identity exactly when the scalar sum is zero.
#[verifier::external_body]
pub fn scalar_add(a: &Vec<u8>, b: &Vec<u8>) -> (r: Option<Vec<u8>>)
    ensures
        scalar_ok(a@) && scalar_ok(b@) ==> opt_view(r) == scalar_sum(a@, b@),
        !(scalar_ok(a@) && scalar_ok(b@)) ==> r is None,
        r matches Some(v) ==> v@.len() == 32 && scalar_ok(v@),
        r matches Some(v) ==> (scalar_ok(a@) && scalar_ok(b@) ==> point_sum(point_of(a@), point_of(b@)) == Some(point_of(v@))),
        r is None && scalar_ok(a@) && scalar_ok(b@) ==> point_sum(point_of(a@), point_of(b@)) is None,
{
    let x = Scalar::<Secret, NonZero>::from_slice(a)?;
    let y = Scalar::<Secret, NonZero>::from_slice(b)?;
    let s = secp256kfun::op::scalar_add(&x, &y).non_zero()?;
    Some(s.to_bytes().to_vec())
}

/// Relies on `EncryptedSign::encrypted_sign` with the deterministic BIP-340
/// nonce generator: a function of the signing key, encryption point and
/// message alone. The returned parts are canonical encodings, so they parse
/// back, and the fresh encrypted signature verifies under the signer's own
/// public point and the encryption point.
#[verifier::external_body]
pub fn adaptor_sign(signing_key: &Vec<u8>, enc_point: &Vec<u8>, msg: &Vec<u8>) -> (r: Option<EncSig>)
    ensures
        scalar_ok(signing_key@) && point_ok(enc_point@) ==> r is Some,
        r is Some ==> scalar_ok(signing_key@) && point_ok(enc_point@),
        r matches Some(e) ==> e.wf() && xonly_ok(e.r_xonly@) && zscalar_ok(e.s_hat@) && e@ == enc_sign_of(signing_key@, enc_point@, msg@),
        r matches Some(e) ==> verify_enc_of(point_of(signing_key@), enc_point@, msg@, e@),
{
    let sk = Scalar::<Secret, NonZero>::from_slice(signing_key)?;
    let t = Point::<Normal, Public, NonZero>::from_slice(enc_point)?;
    let schnorr = Schnorr::<Sha256, Deterministic<Sha256>>::default();
    let kp = KeyPair::<EvenY>::new(sk);
    let e = schnorr.encrypted_sign(&kp, &t, Message::<Public>::plain("cashu-swap", msg));
    Some(EncSig {
        r_xonly: e.R.to_xonly_bytes().to_vec(),
        s_hat: e.s_hat.to_bytes().to_vec(),
        needs_negation: e.needs_negation,
    })
}

/// Converts the plain encoded parts back into `schnorr_fun`'s encrypted
/// signature: `Point::from_xonly_bytes` for the nonce and a zero-allowed
/// `Scalar::from_slice` for the response; `None` exactly when either part
/// does not parse.
#[verifier::external_body]
fn parse_enc_parts(enc: &EncSig) -> (r: Option<EncryptedSignature>)
    ensures
        enc.r_xonly@.len() == 32 && xonly_ok(enc.r_xonly@) && zscalar_ok(enc.s_hat@) ==> r is Some,
        r is Some ==> enc.r_xonly@.len() == 32 && xonly_ok(enc.r_xonly@) && zscalar_ok(enc.s_hat@),
{
    let rb = <[u8; 32]>::try_from(&enc.r_xonly[..]).ok()?;
    let r_pt = Point::<EvenY, Public, NonZero>::from_xonly_bytes(rb)?;
    let s_hat = Scalar::<Public, Zero>::from_slice(&enc.s_hat)?;
    Some(EncryptedSignature { R: r_pt, s_hat, needs_negation: enc.needs_negation })
}

/// Relies on `Adaptor::verify_encrypted_signature`, with the public key
/// taken through its x-only (even-Y) form as BIP-340 prescribes; `false`
/// whenever any part fails to parse. A verifying encrypted signature also
/// carries the scheme's guarantee: its decryption under the scalar of the
/// encryption point satisfies the plain verification equation
/// (`s*G - c*X` equals the nonce once the stored negation is undone), so
/// that decryption is a valid plain signature under the same key and
/// message.
#[verifier::external_body]
pub fn verify_encrypted_signature(
    public_key: &Vec<u8>,
    enc_point: &Vec<u8>,
    msg: &Vec<u8>,
    enc: &EncSig,
) -> (r: bool)
    ensures
        point_ok(public_key@) && point_ok(enc_point@) && enc.wf() && xonly_ok(enc.r_xonly@) && zscalar_ok(enc.s_hat@) ==> r == verify_enc_of(public_key@, enc_point@, msg@, enc@),
        forall|y: Seq<u8>| r && scalar_ok(y) && enc_point@ == #[trigger] point_of(y) && enc.wf() && xonly_ok(enc.r_xonly@) && zscalar_ok(enc.s_hat@) ==> verify_sig_of(public_key@, msg@, decrypt_of(y, enc@)),
{
    let parts = (Point::<Normal, Public, NonZero>::from_slice(public_key),
        Point::<Normal, Public, NonZero>::from_slice(enc_point), parse_enc_parts(enc));
    let (Some(pk), Some(t), Some(e)) = parts else { return false };
    let Some(pk_even) = Point::<EvenY, Public, NonZero>::from_xonly_bytes(pk.to_xonly_bytes())
        else { return false };
    let schnorr = Schnorr::<Sha256, Deterministic<Sha256>>::default();
    schnorr.verify_encrypted_signature(&pk_even, &t, Message::<Public>::plain("cashu-swap", msg), &e)
}

/// Relies on `Adaptor::decrypt_signature`: adds the (possibly negated)
/// decryption scalar to the encrypted response; a function of the scalar and
/// the encrypted signature alone, returned in `Signature::to_bytes` form.
#[verifier::external_body]
pub fn decrypt_signature(secret: &Vec<u8>, enc: &EncSig) -> (r: Option<Vec<u8>>)
    ensures
        scalar_ok(secret@) && enc.wf() && xonly_ok(enc.r_xonly@) && zscalar_ok(enc.s_hat@) ==> opt_view(r) == Some(decrypt_of(secret@, enc@)),
        r matches Some(s) ==> s@.len() == 64,
{
    let y = Scalar::<Secret, NonZero>::from_slice(secret)?;
    let e = parse_enc_parts(enc)?;
    let schnorr = Schnorr::<Sha256, Deterministic<Sha256>>::default();
    let sig = schnorr.decrypt_signature(y, e);
    Some(sig.to_bytes().to_vec())
}

/// Relies on `Adaptor::recover_decryption_key`: when the 64-byte signature
/// is the decryption of `enc` under a scalar `y` whose point is `enc_point`,
/// the call returns exactly `y` (the nonce matches, the response difference
/// un-negates to `y`, and `y * G` matches the encryption key). Conversely a
/// recovered scalar always satisfies exactly that: its point is the
/// encryption key and the signature is the decryption under it — on any
/// other triple the call returns `None`.
#[verifier::external_body]
pub fn recover_adaptor_secret(enc_point: &Vec<u8>, enc: &EncSig, sig: &Vec<u8>) -> (r: Option<Vec<u8>>)
    ensures
        forall|y: Seq<u8>| scalar_ok(y) && enc_point@ == point_of(y) && sig@ == #[trigger] decrypt_of(y, enc@) && enc.wf() && xonly_ok(enc.r_xonly@) && zscalar_ok(enc.s_hat@) ==> opt_view(r) == Some(y),
        r matches Some(v) ==> v@.len() == 32 && scalar_ok(v@) && enc_point@ == point_of(v@) && sig@ == decrypt_of(v@, enc@),
{
    if sig.len() != 64 { return None; }
    let t = Point::<Normal, Public, NonZero>::from_slice(enc_point)?;
    let e = parse_enc_parts(enc)?;
    let sig_r = Point::<EvenY, Public, NonZero>::from_xonly_bytes(
        <[u8; 32]>::try_from(&sig[0..32]).ok()?)?;
    let sig_s = Scalar::<Public, Zero>::from_slice(&sig[32..64])?;
    let schnorr = Schnorr::<Sha256, Deterministic<Sha256>>::default();
    let y = schnorr.recover_decryption_key(&t, &e, &(Signature { R: sig_r, s: sig_s }))?;
    Some(y.to_bytes().to_vec())
}

/// The adaptor round trip: decrypting an encrypted signature with a secret
/// scalar and recovering from the resulting pair yields exactly that secret,
/// for *any* well-formed encrypted signature — this is what makes the swap
/// atomic: publishing a decrypted signature necessarily reveals the adaptor
/// secret, never its negation and never another value.
pub fn recover_from_decryption(t_secret: &Vec<u8>, enc: &EncSig) -> (r: Option<Vec<u8>>)
    ensures
        scalar_ok(t_secret@) && enc.wf() && enc.parses() ==> (r matches Some(v)
            && v@ == t_secret@),
        r matches Some(v) ==> v@.len() == 32 && scalar_ok(v@),
{
    let t_point = match point_from_secret(t_secret) {
        Some(p) => p,
        None => {
            return None;
        },
    };
    let sig = match decrypt_signature(t_secret, enc) {
        Some(s) => s,
        None => {
            return None;
        },
    };
    recover_adaptor_secret(&t_point, enc, &sig)
}

} // verus!
