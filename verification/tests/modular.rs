use num_bigint::BigInt;
use srp_integer::{SRPInteger, SrpError};

fn hex(text: &str) -> SRPInteger {
    SRPInteger::new(text.to_string())
}

fn num(value: i64) -> SRPInteger {
    SRPInteger::from_bigint(BigInt::from(value), None)
}

fn value_of(r: Result<SRPInteger, SrpError>) -> BigInt {
    r.unwrap().as_bigint().clone()
}

#[test]
fn modulo_of_negative_dividend_is_not_negative() {
    assert_eq!(value_of(num(-7).modulo(&num(3))), BigInt::from(2));
    assert_eq!(value_of(num(-6).modulo(&num(3))), BigInt::from(0));
    assert_eq!(value_of(num(-1).modulo(&num(5))), BigInt::from(4));
    assert_eq!(value_of(num(7).modulo(&num(3))), BigInt::from(1));
    assert_eq!(value_of(num(0).modulo(&num(3))), BigInt::from(0));
}

#[test]
fn modulo_by_negative_modulus_is_not_negative() {
    assert_eq!(value_of(num(7).modulo(&num(-3))), BigInt::from(1));
    assert_eq!(value_of(num(-7).modulo(&num(-3))), BigInt::from(2));
    assert_eq!(value_of(num(-6).modulo(&num(-3))), BigInt::from(0));
    assert_eq!(value_of(num(-1).modulo(&num(-5))), BigInt::from(4));
    assert_eq!(value_of(num(0).modulo(&num(-5))), BigInt::from(0));
}

#[test]
fn modulo_of_negated_hex_values() {
    let v = SRPInteger::zero().subtract(&SRPInteger::from_hex("07".to_string()));
    let m = SRPInteger::zero().subtract(&SRPInteger::from_hex("03".to_string()));
    let r = v.modulo(&m).unwrap();
    assert_eq!(r.as_bigint(), &BigInt::from(2));
    assert_eq!(r.hex_length(), Some(2));
    assert_eq!(r.to_hex(), Ok("02".to_string()));
}

#[test]
fn modulo_by_zero_is_an_error() {
    assert!(matches!(num(7).modulo(&num(0)), Err(SrpError::UndefinedModulus)));
    assert!(matches!(hex("0b").modulo(&hex("00")), Err(SrpError::UndefinedModulus)));
    assert!(matches!(hex("0b").modulo(&hex("zz")), Err(SrpError::UndefinedModulus)));
}

#[test]
fn modulo_stays_in_range() {
    for m in -12..12i64 {
        if m == 0 {
            continue;
        }
        for v in -40..40i64 {
            let r = value_of(num(v).modulo(&num(m)));
            assert!(r >= BigInt::from(0) && r < BigInt::from(m.abs()));
            assert_eq!(r, BigInt::from(v.rem_euclid(m)));
            assert_eq!((v - v.rem_euclid(m)) % m, 0);
        }
    }
}

#[test]
fn modulo_of_large_operands() {
    let v = SRPInteger::zero().subtract(&hex("0123456789abcdef0123456789abcdef"));
    let m = hex("fedcba9876543211");
    let neg_m = SRPInteger::zero().subtract(&m);
    let r = v.modulo(&m).unwrap();
    let s = v.modulo(&neg_m).unwrap();
    assert!(r.equals(&s));
    assert!(r.as_bigint() >= &BigInt::from(0));
    assert!(r.as_bigint() < m.as_bigint());
    let back = v.subtract(&r).modulo(&m).unwrap();
    assert_eq!(back.as_bigint(), &BigInt::from(0));
}

#[test]
fn mod_pow_matches_repeated_multiplication() {
    for base in -6..7i64 {
        for modulus in 2..12i64 {
            let mut product = num(1);
            for exponent in 0..=20i64 {
                let expected = value_of(product.modulo(&num(modulus)));
                let got = value_of(num(base).mod_pow(&num(exponent), &num(modulus)));
                assert_eq!(got, expected, "{base}^{exponent} mod {modulus}");
                product = product.multiply(&num(base));
            }
        }
    }
}

#[test]
fn mod_pow_exact_values() {
    assert_eq!(value_of(num(2).mod_pow(&num(10), &num(7))), BigInt::from(2));
    assert_eq!(value_of(num(3).mod_pow(&num(4), &num(5))), BigInt::from(1));
    assert_eq!(value_of(num(4).mod_pow(&num(13), &num(497))), BigInt::from(445));
    assert_eq!(value_of(num(-2).mod_pow(&num(3), &num(5))), BigInt::from(2));
}

#[test]
fn mod_pow_of_zero_exponent() {
    assert_eq!(value_of(num(5).mod_pow(&num(0), &num(7))), BigInt::from(1));
    assert_eq!(value_of(num(0).mod_pow(&num(0), &num(7))), BigInt::from(1));
    assert_eq!(value_of(num(5).mod_pow(&num(0), &num(1))), BigInt::from(0));
    assert_eq!(value_of(num(5).mod_pow(&num(0), &num(8))), BigInt::from(1));
}

#[test]
fn mod_pow_by_negative_modulus_takes_its_sign() {
    assert_eq!(value_of(num(2).mod_pow(&num(3), &num(-5))), BigInt::from(-2));
    assert_eq!(value_of(num(-2).mod_pow(&num(3), &num(-5))), BigInt::from(-3));
    assert_eq!(value_of(num(5).mod_pow(&num(2), &num(-5))), BigInt::from(0));
}

#[test]
fn mod_pow_by_zero_modulus_is_an_error() {
    assert!(matches!(num(2).mod_pow(&num(3), &num(0)), Err(SrpError::UndefinedModulus)));
    assert!(matches!(num(2).mod_pow(&num(-3), &num(0)), Err(SrpError::UndefinedModulus)));
}

#[test]
fn mod_pow_of_negative_exponent_uses_the_inverse() {
    assert_eq!(value_of(num(3).mod_pow(&num(-1), &num(7))), BigInt::from(5));
    assert_eq!(value_of(num(3).mod_pow(&num(-2), &num(7))), BigInt::from(4));
    assert_eq!(value_of(num(2).mod_pow(&num(-1), &num(7))), BigInt::from(4));
    assert_eq!(value_of(num(-3).mod_pow(&num(-1), &num(7))), BigInt::from(2));
    assert_eq!(value_of(num(3).mod_pow(&num(-1), &num(-7))), BigInt::from(-2));
    assert_eq!(value_of(num(3).mod_pow(&num(-1), &num(1))), BigInt::from(0));
    assert_eq!(value_of(num(-3).mod_pow(&num(-1), &num(1))), BigInt::from(0));
    assert_eq!(value_of(num(0).mod_pow(&num(-1), &num(1))), BigInt::from(0));
    assert_eq!(value_of(num(-3).mod_pow(&num(-5), &num(-1))), BigInt::from(0));
}

#[test]
fn mod_pow_of_negative_exponent_undoes_the_power() {
    for modulus in [7i64, 11, 13, 35] {
        for base in 1..modulus {
            let forward = num(base).mod_pow(&num(3), &num(modulus)).unwrap();
            match num(base).mod_pow(&num(-3), &num(modulus)) {
                Ok(backward) => {
                    let one = forward.multiply(&backward).modulo(&num(modulus)).unwrap();
                    assert_eq!(one.as_bigint(), &BigInt::from(1));
                }
                Err(e) => {
                    assert_eq!(e, SrpError::NotInvertible);
                    assert_eq!(modulus, 35);
                    assert!(base % 5 == 0 || base % 7 == 0);
                }
            }
        }
    }
}

#[test]
fn mod_pow_without_inverse_is_an_error() {
    assert!(matches!(num(2).mod_pow(&num(-1), &num(4)), Err(SrpError::NotInvertible)));
    assert!(matches!(num(0).mod_pow(&num(-1), &num(7)), Err(SrpError::NotInvertible)));
    assert!(matches!(num(6).mod_pow(&num(-3), &num(9)), Err(SrpError::NotInvertible)));
}

#[test]
fn mod_pow_of_large_operands() {
    let prime = hex("ffffffffffffffffffffffffffffff61");
    let base = hex("0123456789abcdef0123456789abcdef");
    let exponent = prime.subtract(&hex("1"));
    let r = base.mod_pow(&exponent, &prime).unwrap();
    assert_eq!(r.hex_length(), Some(32));
    assert_eq!(r.to_hex(), Ok("00000000000000000000000000000001".to_string()));
}
