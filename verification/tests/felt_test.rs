use blockifier::felt::{ContractAddress, Felt};

#[test]
fn test_from_hex_reads_digits_with_and_without_prefix() {
    assert_eq!(Felt::from_hex("0x1"), Some(Felt { hi: 0, lo: 1 }));
    assert_eq!(Felt::from_hex("1"), Some(Felt { hi: 0, lo: 1 }));
    assert_eq!(Felt::from_hex("0x100"), Some(Felt { hi: 0, lo: 256 }));
    assert_eq!(Felt::from_hex("0xfF"), Some(Felt { hi: 0, lo: 255 }));
    assert_eq!(Felt::from_hex("0x"), Some(Felt { hi: 0, lo: 0 }));
    assert_eq!(Felt::from_hex(""), Some(Felt { hi: 0, lo: 0 }));
}

#[test]
fn test_from_hex_splits_the_two_halves() {
    assert_eq!(
        Felt::from_hex("0x382a967a31be13f23e23a5345f7a89b0362cc157d6fbe7564e6396a83cf4b4f"),
        Some(Felt {
            hi: 0x0382a967_a31be13f_23e23a53_45f7a89b,
            lo: 0x0362cc15_7d6fbe75_64e6396a_83cf4b4f,
        })
    );
    assert_eq!(
        Felt::from_hex("0x100000000000000000000000000000000"),
        Some(Felt { hi: 1, lo: 0 })
    );
    assert_eq!(
        Felt::from_hex("0xffffffffffffffffffffffffffffffff"),
        Some(Felt { hi: 0, lo: u128::MAX })
    );
}

#[test]
fn test_from_hex_refuses_what_is_no_element() {
    assert_eq!(Felt::from_hex("0xg"), None);
    assert_eq!(Felt::from_hex("hello"), None);
    assert_eq!(Felt::from_hex("-1"), None);
    // 65 digits.
    assert_eq!(
        Felt::from_hex("0x00000000000000000000000000000000000000000000000000000000000000001"),
        None
    );
    // 2^252: the first element out of range.
    assert_eq!(
        Felt::from_hex("0x1000000000000000000000000000000000000000000000000000000000000000"),
        None
    );
    // 2^252 - 1: the last in range.
    assert_eq!(
        Felt::from_hex("0x0fffffffffffffffffffffffffffffffffffffffffffffffffffffffffffffff"),
        Some(Felt { hi: 0x0fffffff_ffffffff_ffffffff_ffffffff, lo: u128::MAX })
    );
}

#[test]
fn test_from_u128_and_zero() {
    assert_eq!(Felt::from_u128(25), Felt { hi: 0, lo: 25 });
    assert_eq!(Felt::from_u128(0), Felt::zero());
    assert!(Felt::zero().is_zero());
    assert!(!Felt::from_u128(1).is_zero());
    assert!(!Felt { hi: 1, lo: 0 }.is_zero());
}

#[test]
fn test_contract_address_bound() {
    let last = Felt { hi: 0x07ffffff_ffffffff_ffffffff_ffffffff, lo: u128::MAX };
    let first_out = Felt { hi: 0x08000000_00000000_00000000_00000000, lo: 0 };
    assert_eq!(ContractAddress::try_from_felt(last), Some(ContractAddress(last)));
    assert_eq!(ContractAddress::try_from_felt(first_out), None);
    assert_eq!(ContractAddress::try_from_felt(Felt { hi: u128::MAX, lo: u128::MAX }), None);
    assert_eq!(
        ContractAddress::try_from_felt(Felt::zero()),
        Some(ContractAddress(Felt { hi: 0, lo: 0 }))
    );
    assert_eq!(
        ContractAddress::try_from_felt(Felt::from_u128(0x100)),
        Some(ContractAddress(Felt { hi: 0, lo: 0x100 }))
    );
}
