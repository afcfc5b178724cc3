use aegis_db::decimal::Dec;
use aegis_db::stats::{mean_decimal, median_decimal, sort_decimals};

#[test]
fn decimals_compare_by_value_across_scales() {
    assert_eq!(Dec::new(100, 2), Dec::from_int(1));
    assert!(Dec::new(5, 1).lt(&Dec::from_int(1)));
    assert!(Dec::new(-21, 1).le(&Dec::from_int(-2)));
    assert!(!Dec::from_int(-2).lt(&Dec::new(-21, 1)));
    assert_ne!(Dec::new(101, 2), Dec::from_int(1));
}

#[test]
fn decimal_parts_and_predicates() {
    let d = Dec::new(-1234, 3);
    assert_eq!(d.mantissa(), -1234);
    assert_eq!(d.scale(), 3);
    assert!(d.is_negative());
    assert!(!d.is_positive());
    assert_eq!(d.abs(), Dec::new(1234, 3));
    assert!(Dec::zero().is_zero());
    assert!(Dec::from_parts(1, 29).is_none());
    assert!(Dec::from_parts(1 << 96, 0).is_none());
    assert_eq!(Dec::from_parts(-5, 1).unwrap(), Dec::new(-5, 1));
}

#[test]
fn decimal_arithmetic_delegates_to_rust_decimal() {
    let a = Dec::new(15, 1);
    let b = Dec::new(25, 2);
    assert_eq!(a.checked_add(&b).unwrap(), Dec::new(175, 2));
    assert_eq!(a.checked_sub(&b).unwrap(), Dec::new(125, 2));
    assert_eq!(a.checked_mul(&b).unwrap(), Dec::new(375, 3));
    assert_eq!(a.checked_div(&b).unwrap(), Dec::from_int(6));
    assert!(a.checked_div(&Dec::zero()).is_none());
    let third = Dec::from_int(1).checked_div(&Dec::from_int(3)).unwrap();
    assert_eq!(third.scale(), 28);
    let max = Dec::from_parts((1i128 << 96) - 1, 0).unwrap();
    assert!(max.checked_add(&Dec::from_int(1)).is_none());
    assert!(max.checked_mul(&Dec::from_int(2)).is_none());
}

#[test]
fn sort_orders_by_value() {
    let sorted = sort_decimals(&vec![Dec::from_int(3), Dec::new(-1, 1), Dec::new(25, 1), Dec::zero()]);
    assert_eq!(sorted, vec![Dec::new(-1, 1), Dec::zero(), Dec::new(25, 1), Dec::from_int(3)]);
}

#[test]
fn mean_and_median_of_values() {
    let values = vec![Dec::from_int(4), Dec::from_int(1), Dec::from_int(7)];
    assert_eq!(mean_decimal(&values).unwrap(), Some(Dec::from_int(4)));
    assert_eq!(median_decimal(&values).unwrap(), Some(Dec::from_int(4)));
    let even = vec![Dec::from_int(4), Dec::from_int(1), Dec::from_int(7), Dec::from_int(2)];
    assert_eq!(mean_decimal(&even).unwrap(), Some(Dec::new(35, 1)));
    assert_eq!(median_decimal(&even).unwrap(), Some(Dec::from_int(3)));
    assert_eq!(mean_decimal(&Vec::new()).unwrap(), None);
    assert_eq!(median_decimal(&Vec::new()).unwrap(), None);
}

#[test]
fn mean_reports_overflow() {
    let max = Dec::from_parts((1i128 << 96) - 1, 0).unwrap();
    assert!(mean_decimal(&vec![max, max]).is_err());
    assert!(median_decimal(&vec![max, max]).is_err());
}

#[test]
fn equal_values_keep_their_input_order() {
    let values = vec![Dec::new(20, 1), Dec::from_int(1), Dec::from_int(2), Dec::new(200, 2)];
    let sorted = sort_decimals(&values);
    let parts: Vec<(i128, u32)> = sorted.iter().map(|d| (d.mantissa(), d.scale())).collect();
    assert_eq!(parts, vec![(1, 0), (20, 1), (2, 0), (200, 2)]);

    let odd = vec![Dec::new(20, 1), Dec::from_int(1), Dec::from_int(2)];
    let m = median_decimal(&odd).unwrap().unwrap();
    assert_eq!((m.mantissa(), m.scale()), (20, 1));
}
