use symbolic_eval::number::Number;
use symbolic_eval::term::FunctionTerm;
use symbolic_eval::value::Value;

fn num(x: f64) -> Number {
    Number { bits: x.to_bits() }
}

#[test]
fn both_zeros_are_zero() {
    assert!(num(0.0).is_zero());
    assert!(num(-0.0).is_zero());
    assert!(Number { bits: 0 }.is_zero());
    assert!(Number { bits: 0x8000_0000_0000_0000 }.is_zero());
}

#[test]
fn nothing_else_is_zero() {
    assert!(!num(1.0).is_zero());
    assert!(!num(-1.0).is_zero());
    assert!(!num(f64::NAN).is_zero());
    assert!(!num(f64::INFINITY).is_zero());
    assert!(!num(f64::MIN_POSITIVE).is_zero());
    assert!(!Number { bits: 1 }.is_zero());
    assert!(!Number { bits: 0x8000_0000_0000_0001 }.is_zero());
    assert!(!num(f64::EPSILON).is_zero());
}

#[test]
fn small_integers_as_numbers() {
    assert_eq!(Number::from_u32(0), Number { bits: 0 });
    assert_eq!(Number::from_u32(1), Number { bits: 0x3ff0_0000_0000_0000 });
    assert_eq!(Number::from_u32(2), Number { bits: 0x4000_0000_0000_0000 });
    assert_eq!(Number::from_u32(3), Number { bits: 0x4008_0000_0000_0000 });
    assert_eq!(Number::from_u32(10), Number { bits: 0x4024_0000_0000_0000 });
}

#[test]
fn integers_convert_as_the_machine_converts_them() {
    let mut samples = vec![0u32, 1, 2, 3, 4, 5, 7, 8, 9, 10, 100, 255, 256, 1000, 65535, 65536, 12_345_678];
    samples.extend([u32::MAX, u32::MAX - 1, 0x8000_0000, 0x7fff_ffff, 0x8000_0001, 0xdead_beef]);
    for shift in 0..32 {
        samples.push(1u32 << shift);
        samples.push((1u32 << shift).wrapping_sub(1));
        samples.push((1u32 << shift) | 1);
    }
    for value in samples {
        assert_eq!(Number::from_u32(value), num(value as f64), "{value}");
    }
}

#[test]
fn an_integer_converts_to_a_literal_term() {
    let two: Box<FunctionTerm> = 2.into();
    assert_eq!(*two, FunctionTerm::Value(Value::Literal(num(2.0))));
    let zero: Box<FunctionTerm> = Box::from(0u32);
    assert_eq!(*zero, FunctionTerm::Value(Value::Literal(num(0.0))));
    let large: Box<FunctionTerm> = u32::MAX.into();
    assert_eq!(*large, FunctionTerm::Value(Value::Literal(num(4294967295.0))));
}
