use num_bigint::BigInt;
use srp_integer::{SRPInteger, SrpError};

fn hex(text: &str) -> SRPInteger {
    SRPInteger::new(text.to_string())
}

fn num(value: i64) -> SRPInteger {
    SRPInteger::from_bigint(BigInt::from(value), None)
}

#[test]
fn xor_follows_twos_complement() {
    assert_eq!(num(-1).xor(&num(0)).as_bigint(), &BigInt::from(-1));
    assert_eq!(num(-1).xor(&num(-1)).as_bigint(), &BigInt::from(0));
    assert_eq!(num(1).xor(&num(-255)).as_bigint(), &BigInt::from(-256));
    assert_eq!(num(255).xor(&num(-1)).as_bigint(), &BigInt::from(-256));
    assert_eq!(num(-1).xor(&num(-255)).as_bigint(), &BigInt::from(254));
    assert_eq!(num(-5).xor(&num(3)).as_bigint(), &BigInt::from(-5i64 ^ 3));
    assert_eq!(num(5).xor(&num(3)).as_bigint(), &BigInt::from(6));
}

#[test]
fn xor_matches_machine_integers() {
    for a in -20..20i64 {
        for b in -20..20i64 {
            assert_eq!(num(a).xor(&num(b)).as_bigint(), &BigInt::from(a ^ b));
        }
    }
}

#[test]
fn xor_twice_gives_back() {
    let values = [-1000i64, -255, -17, -1, 0, 1, 2, 16, 255, 256, 99999];
    for a in values {
        for b in values {
            assert!(num(a).xor(&num(b)).xor(&num(b)).equals(&num(a)));
        }
    }
    let big = hex("ffffffffffffffffffffffffffffffffffff");
    let other = hex("0123456789abcdef");
    assert!(big.xor(&other).xor(&other).equals(&big));
}

#[test]
fn subtract_undoes_add() {
    let values = [-1000i64, -1, 0, 1, 7, 123456789];
    for a in values {
        for b in values {
            assert!(num(a).add(&num(b)).subtract(&num(b)).equals(&num(a)));
        }
    }
    let a = hex("ffffffffffffffffffffffff");
    let b = SRPInteger::zero().subtract(&hex("0123456789abcdef0123456789abcdef"));
    assert!(a.add(&b).subtract(&b).equals(&a));
    assert!(SRPInteger::zero().add(&b).subtract(&b).equals(&a.subtract(&a)));
}

#[test]
fn lower_case_hex_round_trips() {
    for text in ["0", "1", "a", "f", "00", "0f", "10", "000", "00a0", "deadbeef", "0000000000000000000000000001"] {
        assert_eq!(hex(text).to_hex(), Ok(text.to_string()));
    }
}

#[test]
fn upper_case_hex_comes_back_lower_case() {
    assert_eq!(hex("DEADBEEF").to_hex(), Ok("deadbeef".to_string()));
    assert_eq!(hex("0F").to_hex(), Ok("0f".to_string()));
}

#[test]
fn inspect_of_short_values() {
    assert_eq!(hex("00ff").inspect(), "<SRPInteger ff>");
    assert_eq!(SRPInteger::zero().inspect(), "<SRPInteger 0>");
    assert_eq!(hex("0123456789abcdef").inspect(), "<SRPInteger 123456789abcdef>");
    assert_eq!(hex("1234567890abcdef").inspect(), "<SRPInteger 1234567890abcdef>");
}

#[test]
fn inspect_cuts_long_values() {
    assert_eq!(hex("1234567890abcdef1").inspect(), "<SRPInteger 1234567890abcdef...>");
    assert_eq!(
        hex("ffffffffffffffffffffffffffffffff").inspect(),
        "<SRPInteger ffffffffffffffff...>"
    );
}

#[test]
fn inspect_of_negative_values() {
    assert_eq!(num(-255).inspect(), "<SRPInteger -ff>");
    let n = SRPInteger::zero().subtract(&hex("1234567890abcdef"));
    assert_eq!(n.inspect(), "<SRPInteger -1234567890abcde...>");
}

#[test]
fn error_reasons() {
    assert_eq!(
        SrpError::UnrepresentableNegative.reason(),
        "Negative values cannot be represented in hex"
    );
    assert_eq!(SrpError::MissingWidth.reason(), "This SRPInteger has no specified length");
    assert_eq!(SrpError::UndefinedModulus.reason(), "The modulus must not be zero");
    assert_eq!(SrpError::NotInvertible.reason(), "The base has no inverse for this modulus");
}

#[test]
fn random_integer_is_in_range() {
    for bytes in [0u32, 1, 2, 16, 32] {
        let bound = BigInt::from(1) << (8 * bytes as usize);
        for _ in 0..50 {
            let r = SRPInteger::random_integer(bytes);
            assert!(r.as_bigint() >= &BigInt::from(0));
            assert!(r.as_bigint() < &bound);
            assert_eq!(r.hex_length(), Some(2 * bytes as u64));
        }
    }
}

#[test]
fn random_integer_of_no_bytes_is_zero() {
    let r = SRPInteger::random_integer(0);
    assert_eq!(r.as_bigint(), &BigInt::from(0));
    assert_eq!(r.to_hex(), Ok("0".to_string()));
}

#[test]
fn random_integer_varies() {
    let first = SRPInteger::random_integer(32);
    let mut differs = false;
    for _ in 0..20 {
        if !SRPInteger::random_integer(32).equals(&first) {
            differs = true;
        }
    }
    assert!(differs);
}

#[test]
fn random_integer_writes_to_its_width() {
    for _ in 0..50 {
        let text = SRPInteger::random_integer(8).to_hex().unwrap();
        assert_eq!(text.len(), 16);
        assert!(SRPInteger::new(text.clone()).to_hex() == Ok(text));
    }
}

#[test]
fn from_draw_keeps_the_draw() {
    for (draw, bytes) in [(0i64, 0u32), (0, 2), (1, 1), (255, 1), (65535, 2), (12345, 4)] {
        let r = SRPInteger::from_draw(BigInt::from(draw), bytes);
        assert_eq!(r.as_bigint(), &BigInt::from(draw));
        assert_eq!(r.hex_length(), Some(2 * bytes as u64));
    }
    let a = SRPInteger::from_draw(BigInt::from(7), 2);
    let b = SRPInteger::from_draw(BigInt::from(8), 2);
    assert!(!a.equals(&b));
    assert_eq!(a.to_hex(), Ok("0007".to_string()));
}

#[test]
fn random_integer_of_many_bytes() {
    let r = SRPInteger::random_integer(4096);
    assert_eq!(r.hex_length(), Some(8192));
    assert_eq!(r.to_hex().unwrap().len(), 8192);
    assert!(r.as_bigint() < &(BigInt::from(1) << 32768usize));
}

#[test]
fn from_bigint_keeps_value_and_length() {
    let v = SRPInteger::from_bigint(BigInt::from(-42), Some(6));
    assert_eq!(v.as_bigint(), &BigInt::from(-42));
    assert_eq!(v.hex_length(), Some(6));
    let w = SRPInteger::from_bigint(BigInt::from(42), Some(6));
    assert_eq!(w.to_hex(), Ok("00002a".to_string()));
}
