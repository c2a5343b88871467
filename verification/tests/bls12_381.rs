use ark_bls12_381::{Bls12_381, Fq12, Fr, G1Affine, G1Projective, G2Affine, G2Projective};
use ark_ec::pairing::Pairing;
use ark_ec::{AffineRepr, CurveGroup, Group as _};
use ark_scale::hazmat::ArkScaleProjective;
use ark_scale::scale::{Decode, Encode};
use ark_scale::{ArkScale, HOST_CALL};
use node_logic::bls12_381::{
    final_exponentiation, msm, mul_projective, multi_miller_loop, multi_miller_loop_checked, Group,
};

fn enc<T: ark_scale::ark_serialize::CanonicalSerialize>(v: T) -> Vec<u8> {
    ArkScale::<T, HOST_CALL>::from(v).encode()
}

#[test]
fn pairing_works() {
    let g1 = G1Affine::generator();
    let g2 = G2Affine::generator();
    let looped = multi_miller_loop(enc(vec![g1]), enc(vec![g2])).unwrap();
    let result = final_exponentiation(looped).unwrap();
    let value = ArkScale::<Fq12, HOST_CALL>::decode(&mut &result[..]).unwrap().0;
    assert_eq!(value, Bls12_381::pairing(g1, g2).0);
}

#[test]
fn msm_g1_works() {
    let g = G1Affine::generator();
    let out = msm(Group::G1, enc(vec![g, g]), enc(vec![Fr::from(2u64), Fr::from(3u64)])).unwrap();
    let p = ArkScaleProjective::<G1Projective>::decode(&mut &out[..]).unwrap().0;
    assert_eq!(p.into_affine(), (G1Projective::generator() * Fr::from(5u64)).into_affine());
}

#[test]
fn msm_g2_works() {
    let g = G2Affine::generator();
    let out = msm(Group::G2, enc(vec![g]), enc(vec![Fr::from(4u64)])).unwrap();
    let p = ArkScaleProjective::<G2Projective>::decode(&mut &out[..]).unwrap().0;
    assert_eq!(p.into_affine(), (G2Projective::generator() * Fr::from(4u64)).into_affine());
}

#[test]
fn msm_refuses_mismatched_lengths() {
    let g = G1Affine::generator();
    assert_eq!(msm(Group::G1, enc(vec![g, g]), enc(vec![Fr::from(1u64)])), Err(()));
}

#[test]
fn mul_g1_works() {
    let base = ArkScaleProjective::from(&G1Projective::generator()).encode();
    let out = mul_projective(Group::G1, base, enc(vec![7u64])).unwrap();
    let p = ArkScaleProjective::<G1Projective>::decode(&mut &out[..]).unwrap().0;
    assert_eq!(p.into_affine(), (G1Projective::generator() * Fr::from(7u64)).into_affine());
}

#[test]
fn mul_g2_works() {
    let base = ArkScaleProjective::from(&G2Projective::generator()).encode();
    let out = mul_projective(Group::G2, base, enc(vec![3u64])).unwrap();
    let p = ArkScaleProjective::<G2Projective>::decode(&mut &out[..]).unwrap().0;
    assert_eq!(p.into_affine(), (G2Projective::generator() * Fr::from(3u64)).into_affine());
}

#[test]
fn checked_pairing_refuses_lists_of_different_lengths() {
    let g1 = G1Affine::generator();
    let g2 = G2Affine::generator();
    assert_eq!(multi_miller_loop_checked(enc(vec![g1, g1]), enc(vec![g2])), None);
    let checked = multi_miller_loop_checked(enc(vec![g1]), enc(vec![g2])).unwrap().unwrap();
    assert_eq!(checked, multi_miller_loop(enc(vec![g1]), enc(vec![g2])).unwrap());
    assert_eq!(multi_miller_loop_checked(vec![], enc(vec![g2])), Some(Err(())));
}

#[test]
fn undecodable_inputs_are_refused() {
    assert_eq!(multi_miller_loop(vec![], vec![]), Err(()));
    assert_eq!(final_exponentiation(vec![1, 2, 3]), Err(()));
    assert_eq!(mul_projective(Group::G2, vec![0; 5], enc(vec![1u64])), Err(()));
}
