//! *BLS12-381* host functions: pairing and group arithmetic on SCALE-encoded arkworks values.
//!
//! Values are (de-)serialized through the wrapper types of `ark-scale`, neither compressed nor
//! validated; points in projective form use its projective wrapper.
use vstd::prelude::*;
use ark_bls12_381::{g1, g2, Bls12_381, Fq12, Fr, G1Affine, G1Projective, G2Affine, G2Projective};
use ark_ec::pairing::{MillerLoopOutput, Pairing};
use ark_ec::short_weierstrass::SWCurveConfig;
use ark_ec::VariableBaseMSM;
use ark_scale::hazmat::ArkScaleProjective;
use ark_scale::scale::{Decode, Encode};
use ark_scale::{ArkScale, HOST_CALL};

verus! {

/// Curve hooks jumping into the BLS12-381 host functions.
#[derive(Copy, Clone)]
pub struct HostHooks;

/// The group of a short Weierstrass point.
#[derive(PartialEq, Eq, Structural, Clone, Copy, Debug)]
pub enum Group {
    G1,
    G2,
}

/// A byte result, by the views of its bytes.
pub open spec fn bytes_result(r: Result<Vec<u8>, ()>) -> Result<Seq<u8>, ()> {
    match r {
        Ok(v) => Ok(v@),
        Err(e) => Err(e),
    }
}

/// The encoded multi Miller loop of the encoded G1 and G2 points, or `Err` where an input does
/// not decode.
pub uninterp spec fn spec_multi_miller_loop(g1: Seq<u8>, g2: Seq<u8>) -> Result<Seq<u8>, ()>;

/// The encoded final exponentiation of an encoded target field element, or `Err` where the input
/// does not decode or has no final exponentiation.
pub uninterp spec fn spec_final_exponentiation(target: Seq<u8>) -> Result<Seq<u8>, ()>;

/// The encoded multi scalar multiplication on G1, or `Err` where an input does not decode or
/// the numbers of bases and scalars differ.
pub uninterp spec fn spec_msm_g1(bases: Seq<u8>, scalars: Seq<u8>) -> Result<Seq<u8>, ()>;

/// The encoded multi scalar multiplication on G2, as `spec_msm_g1` on G1.
pub uninterp spec fn spec_msm_g2(bases: Seq<u8>, scalars: Seq<u8>) -> Result<Seq<u8>, ()>;

/// The encoded product of a projective G1 point and a scalar given as 64-bit limbs, or `Err`
/// where an input does not decode.
pub uninterp spec fn spec_mul_projective_g1(base: Seq<u8>, scalar: Seq<u8>) -> Result<Seq<u8>, ()>;

/// The encoded product on G2, as `spec_mul_projective_g1` on G1.
pub uninterp spec fn spec_mul_projective_g2(base: Seq<u8>, scalar: Seq<u8>) -> Result<Seq<u8>, ()>;

/// The number of G1 points that `ark-scale` decodes from the bytes, or `None` where they do not
/// decode.
pub uninterp spec fn spec_g1_point_count(bytes: Seq<u8>) -> Option<usize>;

/// The number of G2 points that `ark-scale` decodes from the bytes, or `None` where they do not
/// decode.
pub uninterp spec fn spec_g2_point_count(bytes: Seq<u8>) -> Option<usize>;

/// Whether the G1 and G2 point lists, where both decode, hold as many points as each other: the
/// pairing pairs them one by one.
pub open spec fn point_counts_match(g1: Seq<u8>, g2: Seq<u8>) -> bool {
    (spec_g1_point_count(g1) is Some && spec_g2_point_count(g2) is Some)
        ==> spec_g1_point_count(g1) == spec_g2_point_count(g2)
}

/// `Decode::decode` of `ark-scale` for a `Vec<G1Affine>` (neither compressed nor validated),
/// giving the number of points decoded, or `None` on a decoding error. The contract names the
/// result.
#[verifier::external_body]
fn g1_point_count(bytes: &[u8]) -> (r: Option<usize>)
    ensures
        r == spec_g1_point_count(bytes@),
{
    match ArkScale::<Vec<G1Affine>, HOST_CALL>::decode(&mut &bytes[..]) {
        Ok(v) => Some(v.0.len()),
        Err(_) => None,
    }
}

/// `Decode::decode` of `ark-scale` for a `Vec<G2Affine>` (neither compressed nor validated),
/// giving the number of points decoded, or `None` on a decoding error. The contract names the
/// result.
#[verifier::external_body]
fn g2_point_count(bytes: &[u8]) -> (r: Option<usize>)
    ensures
        r == spec_g2_point_count(bytes@),
{
    match ArkScale::<Vec<G2Affine>, HOST_CALL>::decode(&mut &bytes[..]) {
        Ok(v) => Some(v.0.len()),
        Err(_) => None,
    }
}

/// `Pairing::multi_miller_loop` of arkworks on `Bls12_381`, with the points decoded from and the
/// result encoded to bytes by `ark-scale`; a decoding error gives `Err`. The pairing zips the two
/// point lists with `zip_eq`, which panics on lists of different lengths: `requires` leaves those
/// out. The contract names the result.
#[verifier::external_body]
fn ark_multi_miller_loop(g1: &[u8], g2: &[u8]) -> (r: Result<Vec<u8>, ()>)
    requires
        point_counts_match(g1@, g2@),
    ensures
        bytes_result(r) == spec_multi_miller_loop(g1@, g2@),
{
    let g1 = match ArkScale::<Vec<G1Affine>, HOST_CALL>::decode(&mut &g1[..]) {
        Ok(v) => v.0,
        Err(_) => return Err(()),
    };
    let g2 = match ArkScale::<Vec<G2Affine>, HOST_CALL>::decode(&mut &g2[..]) {
        Ok(v) => v.0,
        Err(_) => return Err(()),
    };
    Ok(ArkScale::<Fq12, HOST_CALL>::from(Bls12_381::multi_miller_loop(g1, g2).0).encode())
}

/// `Pairing::final_exponentiation` of arkworks on `Bls12_381`, with the input decoded from and
/// the result encoded to bytes by `ark-scale`; a decoding error, or no result, gives `Err`. The
/// contract names the result.
#[verifier::external_body]
fn ark_final_exponentiation(target: &[u8]) -> (r: Result<Vec<u8>, ()>)
    ensures
        bytes_result(r) == spec_final_exponentiation(target@),
{
    let target = match ArkScale::<Fq12, HOST_CALL>::decode(&mut &target[..]) {
        Ok(v) => v.0,
        Err(_) => return Err(()),
    };
    match Bls12_381::final_exponentiation(MillerLoopOutput(target)) {
        Some(out) => Ok(ArkScale::<Fq12, HOST_CALL>::from(out.0).encode()),
        None => Err(()),
    }
}

/// `VariableBaseMSM::msm` of arkworks on G1 of BLS12-381, with the bases and scalars decoded
/// from bytes by `ark-scale` and the projective result encoded by its projective wrapper; a
/// decoding error, or bases and scalars of different numbers, give `Err`. The contract names the
/// result.
#[verifier::external_body]
fn ark_msm_g1(bases: &[u8], scalars: &[u8]) -> (r: Result<Vec<u8>, ()>)
    ensures
        bytes_result(r) == spec_msm_g1(bases@, scalars@),
{
    let bases = match ArkScale::<Vec<G1Affine>, HOST_CALL>::decode(&mut &bases[..]) {
        Ok(v) => v.0,
        Err(_) => return Err(()),
    };
    let scalars = match ArkScale::<Vec<Fr>, HOST_CALL>::decode(&mut &scalars[..]) {
        Ok(v) => v.0,
        Err(_) => return Err(()),
    };
    match G1Projective::msm(&bases, &scalars) {
        Ok(p) => Ok(ArkScaleProjective::from(&p).encode()),
        Err(_) => Err(()),
    }
}

/// `VariableBaseMSM::msm` of arkworks on G2 of BLS12-381, as `ark_msm_g1` on G1. The contract
/// names the result.
#[verifier::external_body]
fn ark_msm_g2(bases: &[u8], scalars: &[u8]) -> (r: Result<Vec<u8>, ()>)
    ensures
        bytes_result(r) == spec_msm_g2(bases@, scalars@),
{
    let bases = match ArkScale::<Vec<G2Affine>, HOST_CALL>::decode(&mut &bases[..]) {
        Ok(v) => v.0,
        Err(_) => return Err(()),
    };
    let scalars = match ArkScale::<Vec<Fr>, HOST_CALL>::decode(&mut &scalars[..]) {
        Ok(v) => v.0,
        Err(_) => return Err(()),
    };
    match G2Projective::msm(&bases, &scalars) {
        Ok(p) => Ok(ArkScaleProjective::from(&p).encode()),
        Err(_) => Err(()),
    }
}

/// `SWCurveConfig::mul_projective` of arkworks on G1 of BLS12-381, with the projective base
/// decoded by the projective wrapper of `ark-scale` and the scalar limbs by `ark-scale`, and the
/// result encoded by the projective wrapper; a decoding error gives `Err`. The contract names the
/// result.
#[verifier::external_body]
fn ark_mul_projective_g1(base: &[u8], scalar: &[u8]) -> (r: Result<Vec<u8>, ()>)
    ensures
        bytes_result(r) == spec_mul_projective_g1(base@, scalar@),
{
    let base = match ArkScaleProjective::<G1Projective>::decode(&mut &base[..]) {
        Ok(v) => v.0,
        Err(_) => return Err(()),
    };
    let scalar = match ArkScale::<Vec<u64>, HOST_CALL>::decode(&mut &scalar[..]) {
        Ok(v) => v.0,
        Err(_) => return Err(()),
    };
    Ok(ArkScaleProjective::from(&g1::Config::mul_projective(&base, &scalar)).encode())
}

/// `SWCurveConfig::mul_projective` of arkworks on G2 of BLS12-381, as `ark_mul_projective_g1`
/// on G1. The contract names the result.
#[verifier::external_body]
fn ark_mul_projective_g2(base: &[u8], scalar: &[u8]) -> (r: Result<Vec<u8>, ()>)
    ensures
        bytes_result(r) == spec_mul_projective_g2(base@, scalar@),
{
    let base = match ArkScaleProjective::<G2Projective>::decode(&mut &base[..]) {
        Ok(v) => v.0,
        Err(_) => return Err(()),
    };
    let scalar = match ArkScale::<Vec<u64>, HOST_CALL>::decode(&mut &scalar[..]) {
        Ok(v) => v.0,
        Err(_) => return Err(()),
    };
    Ok(ArkScaleProjective::from(&g2::Config::mul_projective(&base, &scalar)).encode())
}

/// Pairing multi Miller loop for *BLS12-381*: receives encoded `Vec<G1Affine>` and
/// `Vec<G2Affine>`, returns the encoded target field element. The two lists are paired point by
/// point, so where both decode they must hold as many points.
pub fn multi_miller_loop(g1: Vec<u8>, g2: Vec<u8>) -> (r: Result<Vec<u8>, ()>)
    requires
        point_counts_match(g1@, g2@),
    ensures
        bytes_result(r) == spec_multi_miller_loop(g1@, g2@),
{
    ark_multi_miller_loop(g1.as_slice(), g2.as_slice())
}

/// The multi Miller loop of `multi_miller_loop` on any input: first decodes both point lists to
/// count them, and gives `None`, pairing nothing, where both decode to lists of different
/// lengths; else `Some` of the multi Miller loop.
pub fn multi_miller_loop_checked(g1: Vec<u8>, g2: Vec<u8>) -> (r: Option<Result<Vec<u8>, ()>>)
    ensures
        r is None <==> !point_counts_match(g1@, g2@),
        r is Some ==> bytes_result(r->0) == spec_multi_miller_loop(g1@, g2@),
{
    let n1 = g1_point_count(g1.as_slice());
    let n2 = g2_point_count(g2.as_slice());
    match (n1, n2) {
        (Some(a), Some(b)) => {
            if a != b {
                return None;
            }
        },
        _ => {},
    }
    Some(multi_miller_loop(g1, g2))
}

/// Pairing final exponentiation for *BLS12-381*: receives an encoded target field element,
/// returns the encoded result.
pub fn final_exponentiation(target: Vec<u8>) -> (r: Result<Vec<u8>, ()>)
    ensures
        bytes_result(r) == spec_final_exponentiation(target@),
{
    ark_final_exponentiation(target.as_slice())
}

/// Multi scalar multiplication on `group` of *BLS12-381*: receives encoded affine bases and
/// encoded scalars, returns the encoded projective result.
pub fn msm(group: Group, bases: Vec<u8>, scalars: Vec<u8>) -> (r: Result<Vec<u8>, ()>)
    ensures
        bytes_result(r) == match group {
            Group::G1 => spec_msm_g1(bases@, scalars@),
            Group::G2 => spec_msm_g2(bases@, scalars@),
        },
{
    match group {
        Group::G1 => ark_msm_g1(bases.as_slice(), scalars.as_slice()),
        Group::G2 => ark_msm_g2(bases.as_slice(), scalars.as_slice()),
    }
}

/// Projective multiplication on `group` of *BLS12-381*: receives an encoded projective base and
/// an encoded scalar (as 64-bit limbs), returns the encoded projective result.
pub fn mul_projective(group: Group, base: Vec<u8>, scalar: Vec<u8>) -> (r: Result<Vec<u8>, ()>)
    ensures
        bytes_result(r) == match group {
            Group::G1 => spec_mul_projective_g1(base@, scalar@),
            Group::G2 => spec_mul_projective_g2(base@, scalar@),
        },
{
    match group {
        Group::G1 => ark_mul_projective_g1(base.as_slice(), scalar.as_slice()),
        Group::G2 => ark_mul_projective_g2(base.as_slice(), scalar.as_slice()),
    }
}

} // verus!
