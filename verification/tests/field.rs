use ark_ff::{Field as ArkField, PrimeField};
use mips_witness::bn254::Fp;
use mips_witness::field::Field;

fn ark_limbs(x: ark_bn254::Fr) -> [u64; 4] {
    x.into_bigint().0
}

#[test]
fn zero_is_zero() {
    assert_eq!(Fp::zero().limbs(), [0, 0, 0, 0]);
    assert_eq!(Fp::from_u64(0), Fp::zero());
    assert_eq!(Fp::zero().inverse(), None);
}

#[test]
fn numbers_stand_for_themselves() {
    assert_eq!(Fp::from_u64(1).limbs(), [1, 0, 0, 0]);
    assert_eq!(Fp::from_u64(u64::MAX).limbs(), [u64::MAX, 0, 0, 0]);
    assert_eq!(
        Fp::from_u64(12345).limbs(),
        ark_limbs(ark_bn254::Fr::from(12345u64))
    );
    assert_ne!(Fp::from_u64(1), Fp::from_u64(2));
}

#[test]
fn inverses_are_those_of_the_field() {
    assert_eq!(Fp::from_u64(1).inverse(), Some(Fp::from_u64(1)));
    // (p + 1) / 2
    assert_eq!(
        Fp::from_u64(2).inverse().unwrap().limbs(),
        [
            0xa1f0_fac9_f800_0001,
            0x9419_f424_3cdc_b848,
            0xdc28_22db_40c0_ac2e,
            0x1832_2739_7098_d014
        ]
    );
    for x in [3u64, 7, 4096, 0xffff_ffff, u64::MAX] {
        let inverse = Fp::from_u64(x).inverse().unwrap();
        let expected = ark_bn254::Fr::from(x).inverse().unwrap();
        assert_eq!(inverse.limbs(), ark_limbs(expected));
        assert_eq!(inverse.inverse(), Some(Fp::from_u64(x)));
    }
}
