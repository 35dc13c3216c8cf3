use parity_scale_codec::Encode;
use sp_runtime::generic::Era as TheirEra;
use substrate_wire::era::{exponent_of, is_power_of_two, Era};

fn bytes_of(era: &Era) -> Vec<u8> {
    let mut out = Vec::new();
    assert!(era.is_well_formed());
    era.push_bytes(&mut out);
    out
}

#[test]
fn immortal_era_is_one_zero_byte() {
    assert_eq!(bytes_of(&Era::Immortal), vec![0x00]);
    assert_eq!(bytes_of(&Era::Immortal), TheirEra::Immortal.encode());
    assert!(Era::Immortal.is_immortal());
}

#[test]
fn mortal_era_is_two_bytes() {
    // period 64 starting at block 42: exponent 6, so 5 in the low bits, 42 above
    let era = Era::Mortal { period: 64, phase: 42 };
    assert_eq!(bytes_of(&era), vec![0xa5, 0x02]);
    assert_eq!(bytes_of(&era), TheirEra::Mortal(64, 42).encode());
    assert!(!era.is_immortal());
}

#[test]
fn mortal_eras_agree_with_the_runtime_crate() {
    for exp in 2..=16u32 {
        let period = 1u64 << exp;
        for current in [0u64, 1, 3, 100, 4095, 4096, 65535, 1_000_000, u64::MAX] {
            let ours = Era::mortal(period, current);
            let theirs = TheirEra::mortal(period, current);
            match (ours, theirs) {
                (Era::Mortal { period: p, phase }, TheirEra::Mortal(tp, tphase)) => {
                    assert_eq!(p, tp);
                    assert_eq!(phase, tphase);
                }
                _ => panic!("both are mortal"),
            }
            assert_eq!(bytes_of(&ours), theirs.encode());
        }
    }
}

#[test]
fn mortal_rounds_the_period() {
    for (asked, got) in [(0u64, 4u64), (1, 4), (4, 4), (5, 8), (63, 64), (65, 128), (65536, 65536), (65537, 65536), (u64::MAX, 65536)] {
        match Era::mortal(asked, 0) {
            Era::Mortal { period, .. } => assert_eq!(period, got),
            Era::Immortal => panic!("mortal"),
        }
        match TheirEra::mortal(asked, 0) {
            TheirEra::Mortal(period, _) => assert_eq!(period, got),
            TheirEra::Immortal => panic!("mortal"),
        }
    }
}

#[test]
fn malformed_eras_are_recognised() {
    assert!(!Era::Mortal { period: 3, phase: 0 }.is_well_formed());
    assert!(!Era::Mortal { period: 2, phase: 0 }.is_well_formed());
    assert!(!Era::Mortal { period: 100, phase: 0 }.is_well_formed());
    assert!(!Era::Mortal { period: 131072, phase: 0 }.is_well_formed());
    assert!(!Era::Mortal { period: 64, phase: 64 }.is_well_formed());
    assert!(Era::Mortal { period: 64, phase: 63 }.is_well_formed());
    assert!(Era::Mortal { period: 65536, phase: 65535 }.is_well_formed());
}

#[test]
fn powers_and_exponents() {
    assert!(is_power_of_two(1));
    assert!(is_power_of_two(2));
    assert!(is_power_of_two(1 << 40));
    assert!(!is_power_of_two(0));
    assert!(!is_power_of_two(6));
    assert_eq!(exponent_of(1), 0);
    assert_eq!(exponent_of(2), 1);
    assert_eq!(exponent_of(64), 6);
    assert_eq!(exponent_of(65536), 16);
    assert_eq!(exponent_of(65535), 15);
}
