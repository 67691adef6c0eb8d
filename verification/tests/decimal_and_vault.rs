use microfinance_platform::decimal::{Decimal, ATTOS_PER_UNIT};
use microfinance_platform::vault::{Bucket, Vault};

fn dec(units: i128) -> Decimal {
    Decimal::from_attos(units * ATTOS_PER_UNIT)
}

#[test]
fn decimal_from_u32_scales_to_attos() {
    assert_eq!(Decimal::from_u32(1000), Decimal::from_attos(1000 * ATTOS_PER_UNIT));
    assert_eq!(Decimal::from_u32(0), Decimal::from_attos(0));
    assert_eq!(Decimal::one(), Decimal::from_attos(ATTOS_PER_UNIT));
    assert_eq!(Decimal::zero(), Decimal { hi: 0, mid: 0, lo: 0 });
    // 4294967295 units need more than 64 bits of attos
    assert_eq!(
        Decimal::from_u32(u32::MAX),
        Decimal { hi: 0, mid: 232830643, lo: 11061765702005030912 }
    );
}

#[test]
fn decimal_mul_rounds_toward_zero() {
    // 0.05 * 1.05 = 0.0525
    let a = Decimal::from_attos(50_000_000_000_000_000);
    let b = Decimal::from_attos(1_050_000_000_000_000_000);
    assert_eq!(a.checked_mul(b), Some(Decimal::from_attos(52_500_000_000_000_000)));
    // 3 attos * 0.5 = 1.5 attos, rounded toward zero to 1; -3 attos * 0.5 to -1
    let half = Decimal::from_attos(500_000_000_000_000_000);
    assert_eq!(Decimal::from_attos(3).checked_mul(half), Some(Decimal::from_attos(1)));
    assert_eq!(Decimal::from_attos(-3).checked_mul(half), Some(Decimal::from_attos(-1)));
}

#[test]
fn decimal_div_rounds_toward_zero_and_refuses_zero() {
    // 1 / 3 = 0.333...333
    let third = dec(1).checked_div(dec(3)).unwrap();
    assert_eq!(third, Decimal::from_attos(333_333_333_333_333_333));
    let neg_third = dec(-1).checked_div(dec(3)).unwrap();
    assert_eq!(neg_third, Decimal::from_attos(-333_333_333_333_333_333));
    assert_eq!(dec(1).checked_div(Decimal::zero()), None);
    // 250 / 1000 = 0.25
    assert_eq!(Decimal::from_u32(250).checked_div(Decimal::from_u32(1000)), Some(Decimal::from_attos(250_000_000_000_000_000)));
}

#[test]
fn decimal_overflow_gives_none() {
    // the largest and smallest counts of attos: 2^191 - 1 and -2^191
    let max = Decimal { hi: i64::MAX, mid: u64::MAX, lo: u64::MAX };
    let min = Decimal { hi: i64::MIN, mid: 0, lo: 0 };
    assert_eq!(max.checked_add(Decimal::from_attos(1)), None);
    assert_eq!(min.checked_sub(Decimal::from_attos(1)), None);
    assert_eq!(max.checked_sub(max), Some(Decimal::zero()));
    assert_eq!(max.checked_mul(dec(2)), None);
    assert_eq!(max.checked_div(Decimal::from_attos(1)), None);
    assert_eq!(dec(2).checked_add(dec(3)), Some(dec(5)));
    assert_eq!(dec(2).checked_sub(dec(3)), Some(dec(-1)));
}

#[test]
fn vault_put_then_take() {
    let mut v = Vault::new(7);
    assert_eq!(v.amount(), Decimal::zero());
    v.put(Bucket { resource: 7, amount: dec(10) });
    let b = v.take(dec(4));
    assert_eq!(b, Bucket { resource: 7, amount: dec(4) });
    assert_eq!(v.amount(), dec(6));
}

#[test]
fn bucket_take_leaves_the_rest() {
    let mut b = Bucket { resource: 3, amount: dec(10) };
    let part = b.take(dec(10));
    assert_eq!(part.amount, dec(10));
    assert!(b.is_empty());
    assert!(Bucket::empty(3).is_empty());
}

#[test]
fn decimal_holds_more_than_128_bits_of_attos() {
    // 2^127 - 1 attos plus one atto is 2^127 attos
    let big = Decimal::from_attos(i128::MAX);
    assert_eq!(big.checked_add(Decimal::from_attos(1)), Some(Decimal { hi: 0, mid: 1 << 63, lo: 0 }));
    assert_eq!(Decimal::from_attos(i128::MIN).checked_sub(Decimal::from_attos(1)).unwrap().hi, -1);
    // 10^21 units times 10^21 units overflows; 10^21 times 2 does not
    let units = Decimal::from_u32(1_000_000_000).checked_mul(Decimal::from_u32(1_000_000_000)).unwrap();
    let much = units.checked_mul(Decimal::from_u32(1000)).unwrap();
    assert_eq!(much.checked_mul(dec(2)), Some(much.checked_add(much).unwrap()));
    assert_eq!(much.checked_mul(much), None);
    assert!(much.is_positive());
    assert!(!Decimal::from_attos(-1).is_positive());
    assert!(Decimal::from_attos(-1).le(&Decimal::zero()));
    assert!(!much.le(&dec(1)));
    assert!(Decimal::zero().is_zero());
}
