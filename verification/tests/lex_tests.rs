use md5_model::fixed::{Fx, FX_MAX, FX_SCALE};
use md5_model::lex::{next_token, parse_fx_e, parse_i32_e, skip_line_e};
use md5_model::vecmath::isqrt;

#[test]
fn tokenizer_splits_on_whitespace() {
    let s = b"  alpha\tbeta\n gamma";
    let (t1, p1) = next_token(s, 0);
    assert_eq!(t1, b"alpha".to_vec());
    let (t2, p2) = next_token(s, p1);
    assert_eq!(t2, b"beta".to_vec());
    let (t3, p3) = next_token(s, p2);
    assert_eq!(t3, b"gamma".to_vec());
    let (t4, _) = next_token(s, p3);
    assert!(t4.is_empty());
}

#[test]
fn skip_line_stops_after_newline() {
    let s = b"junk junk\nnext";
    let p = skip_line_e(s, 0);
    let (t, _) = next_token(s, p);
    assert_eq!(t, b"next".to_vec());
}

#[test]
fn parse_i32_exact_values() {
    assert_eq!(parse_i32_e(b"0"), Some(0));
    assert_eq!(parse_i32_e(b"-1"), Some(-1));
    assert_eq!(parse_i32_e(b"007"), Some(7));
    assert_eq!(parse_i32_e(b"2147483647"), Some(2147483647));
    assert_eq!(parse_i32_e(b"-2147483648"), Some(i32::MIN));
}

#[test]
fn parse_i32_rejects_malformed_and_overflow() {
    assert_eq!(parse_i32_e(b""), None);
    assert_eq!(parse_i32_e(b"-"), None);
    assert_eq!(parse_i32_e(b"--3"), None);
    assert_eq!(parse_i32_e(b"12a"), None);
    assert_eq!(parse_i32_e(b"2147483648"), None);
    assert_eq!(parse_i32_e(b"-2147483649"), None);
    assert_eq!(parse_i32_e(b"99999999999999999999"), None);
}

#[test]
fn parse_scalar_exact_values() {
    assert_eq!(parse_fx_e(b"1.5").map(|f| f.raw()), Some(1_500_000));
    assert_eq!(parse_fx_e(b"-0.25").map(|f| f.raw()), Some(-250_000));
    assert_eq!(parse_fx_e(b"12").map(|f| f.raw()), Some(12_000_000));
    assert_eq!(parse_fx_e(b"5.").map(|f| f.raw()), Some(5_000_000));
    assert_eq!(parse_fx_e(b"0.000001").map(|f| f.raw()), Some(1));
    // digits past the sixth place are dropped
    assert_eq!(parse_fx_e(b"1.2345678").map(|f| f.raw()), Some(1_234_567));
}

#[test]
fn parse_scalar_rejects_malformed() {
    assert_eq!(parse_fx_e(b"").map(|f| f.raw()), None);
    assert_eq!(parse_fx_e(b"abc").map(|f| f.raw()), None);
    assert_eq!(parse_fx_e(b".5").map(|f| f.raw()), None);
    assert_eq!(parse_fx_e(b"1.2e3").map(|f| f.raw()), None);
    assert_eq!(parse_fx_e(b"1.2.3").map(|f| f.raw()), None);
}

#[test]
fn parse_scalar_saturates() {
    assert_eq!(
        parse_fx_e(b"99999999999999999999").map(|f| f.raw()),
        Some(FX_MAX)
    );
    assert_eq!(
        parse_fx_e(b"-99999999999999999999").map(|f| f.raw()),
        Some(-FX_MAX)
    );
}

#[test]
fn fixed_point_arithmetic() {
    let two = Fx::from_raw(2 * FX_SCALE);
    let three = Fx::from_raw(3 * FX_SCALE);
    assert_eq!(two.mul(three).raw(), 6 * FX_SCALE);
    assert_eq!(two.add(three).raw(), 5 * FX_SCALE);
    assert_eq!(two.sub(three).raw(), -FX_SCALE);
    // saturation at the bounds
    assert_eq!(Fx::from_raw(i64::MAX).raw(), FX_MAX);
    assert_eq!(Fx::from_raw(FX_MAX).add(Fx::one()).raw(), FX_MAX);
}

#[test]
fn integer_square_root() {
    assert_eq!(isqrt(0), 0);
    assert_eq!(isqrt(144), 12);
    assert_eq!(isqrt(150), 12);
    assert_eq!(isqrt(1_000_000_000_000), 1_000_000);
    assert_eq!(isqrt(999_999_999_999), 999_999);
}
