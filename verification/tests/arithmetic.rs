use pig_farm::economy::{Money, INITIAL_MONEY, PIG_PAYOUT, PIG_PRICE};
use pig_farm::fixed::{diagonal, isqrt, UNIT};
use pig_farm::timer::Countdown;
use pig_farm::vector::Vec2;

#[test]
fn isqrt_of_small_numbers() {
    assert_eq!(isqrt(0), 0);
    assert_eq!(isqrt(1), 1);
    assert_eq!(isqrt(2), 1);
    assert_eq!(isqrt(3), 1);
    assert_eq!(isqrt(4), 2);
    assert_eq!(isqrt(15), 3);
    assert_eq!(isqrt(16), 4);
    assert_eq!(isqrt(17), 4);
    assert_eq!(isqrt(99), 9);
    assert_eq!(isqrt(100), 10);
}

#[test]
fn isqrt_of_large_numbers() {
    assert_eq!(isqrt(5_000_000_000), 70_710);
    assert_eq!(isqrt(1_000_000_000_000), 1_000_000);
    assert_eq!(isqrt(999_999_999_999), 999_999);
    assert_eq!(isqrt(u128::MAX), u64::MAX);
    assert_eq!(isqrt((u64::MAX as u128) * (u64::MAX as u128)), u64::MAX);
    assert_eq!(isqrt((u64::MAX as u128) * (u64::MAX as u128) - 1), u64::MAX - 1);
}

#[test]
fn isqrt_meets_both_bounds() {
    let mut n: u128 = 0;
    while n < 5_000 {
        let r = isqrt(n) as u128;
        assert!(r * r <= n);
        assert!(n < (r + 1) * (r + 1));
        n += 1;
    }
}

#[test]
fn diagonal_divides_by_the_square_root_of_two() {
    assert_eq!(diagonal(0), 0);
    assert_eq!(diagonal(1), 0);
    assert_eq!(diagonal(2), 1);
    assert_eq!(diagonal(3), 2);
    assert_eq!(diagonal(10), 7);
    assert_eq!(diagonal(1_000), 707);
    assert_eq!(diagonal(100_000), 70_710);
    assert_eq!(diagonal(1_600), 1_131);
}

#[test]
fn diagonal_of_the_largest_number() {
    let c = diagonal(u64::MAX) as u128;
    let a = u64::MAX as u128;
    assert!(2 * c * c <= a * a);
    assert!(a * a < 2 * (c + 1) * (c + 1));
    assert_eq!(c, 13_043_817_825_332_782_211);
}

#[test]
fn unit_is_a_thousand() {
    assert_eq!(UNIT, 1_000);
}

#[test]
fn unit_vector_of_a_pythagorean_triple() {
    assert_eq!(Vec2::unit(3, 4), Some(Vec2 { x: 600, y: 800 }));
    assert_eq!(Vec2::unit(-3, 4), Some(Vec2 { x: -600, y: 800 }));
    assert_eq!(Vec2::unit(3, -4), Some(Vec2 { x: 600, y: -800 }));
    assert_eq!(Vec2::unit(-300, -400), Some(Vec2 { x: -600, y: -800 }));
}

#[test]
fn unit_vector_along_an_axis() {
    assert_eq!(Vec2::unit(1, 0), Some(Vec2 { x: 1_000, y: 0 }));
    assert_eq!(Vec2::unit(-1_000, 0), Some(Vec2 { x: -1_000, y: 0 }));
    assert_eq!(Vec2::unit(0, 999), Some(Vec2 { x: 0, y: 1_000 }));
    assert_eq!(Vec2::unit(0, -7), Some(Vec2 { x: 0, y: -1_000 }));
}

#[test]
fn unit_vector_rounds_towards_zero() {
    assert_eq!(Vec2::unit(1, 1), Some(Vec2 { x: 707, y: 707 }));
    assert_eq!(Vec2::unit(-1, -1), Some(Vec2 { x: -707, y: -707 }));
    assert_eq!(Vec2::unit(1, 1_000), Some(Vec2 { x: 0, y: 999 }));
    assert_eq!(Vec2::unit(-1, 1_000), Some(Vec2 { x: 0, y: 999 }));
    assert_eq!(Vec2::unit(1, 2), Some(Vec2 { x: 447, y: 894 }));
}

#[test]
fn unit_vector_of_zero_is_none() {
    assert_eq!(Vec2::unit(0, 0), None);
}

#[test]
fn unit_vector_of_the_extremes() {
    assert_eq!(Vec2::unit(i32::MIN, i32::MIN), Some(Vec2 { x: -707, y: -707 }));
    assert_eq!(Vec2::unit(i32::MAX, i32::MIN), Some(Vec2 { x: 707, y: -707 }));
    assert_eq!(Vec2::unit(i32::MIN, 0), Some(Vec2 { x: -1_000, y: 0 }));
    assert_eq!(Vec2::unit(i32::MAX, 1), Some(Vec2 { x: 999, y: 0 }));
}

#[test]
fn unit_vector_is_one_whole_long() {
    let mut x: i32 = -40;
    while x <= 40 {
        let mut y: i32 = -40;
        while y <= 40 {
            if x != 0 || y != 0 {
                let v = Vec2::unit(x, y).unwrap();
                assert!(v.x * v.x + v.y * v.y <= 1_000_000);
                let (ax, ay) = (v.x.abs() + 1, v.y.abs() + 1);
                assert!(ax * ax + ay * ay > 1_000_000);
                assert_eq!(v.x.signum() as i32 * x.signum(), if v.x == 0 { 0 } else { 1 });
                assert_eq!(v.y.signum() as i32 * y.signum(), if v.y == 0 { 0 } else { 1 });
            }
            y += 1;
        }
        x += 1;
    }
}

#[test]
fn vec2_new_keeps_its_components() {
    let v = Vec2::new(-3, 9);
    assert_eq!(v.x, -3);
    assert_eq!(v.y, 9);
    assert_eq!(v, Vec2 { x: -3, y: 9 });
}

#[test]
fn countdown_runs_down_and_stops_at_zero() {
    let mut c = Countdown::from_millis(100);
    assert_eq!(c.remaining, 100);
    assert!(!c.finished());
    assert!(!c.tick(40));
    assert_eq!(c.remaining, 60);
    assert!(!c.tick(59));
    assert_eq!(c.remaining, 1);
    assert!(c.tick(1));
    assert_eq!(c.remaining, 0);
    assert!(c.finished());
}

#[test]
fn countdown_finishes_only_once() {
    let mut c = Countdown::from_millis(10);
    assert!(c.tick(500));
    assert!(c.finished());
    assert!(!c.tick(500));
    assert!(!c.tick(0));
    assert!(c.finished());
    assert_eq!(c.remaining, 0);
}

#[test]
fn countdown_does_not_move_without_time() {
    let mut c = Countdown::from_millis(10);
    assert!(!c.tick(0));
    assert_eq!(c.remaining, 10);
    let mut done = Countdown::from_millis(0);
    assert!(done.finished());
    assert!(!done.tick(0));
    assert!(!done.tick(5));
}

#[test]
fn countdown_reset_starts_over() {
    let mut c = Countdown::from_millis(10);
    assert!(c.tick(10));
    c.reset(2_500);
    assert_eq!(c.remaining, 2_500);
    assert!(!c.finished());
    assert!(!c.tick(2_499));
    assert!(c.tick(1));
}

#[test]
fn countdown_keeps_no_account_of_how_time_was_cut() {
    let mut in_two = Countdown::from_millis(30_000);
    in_two.tick(12_000);
    in_two.tick(7_000);
    let mut in_one = Countdown::from_millis(30_000);
    in_one.tick(19_000);
    assert_eq!(in_two, in_one);
    assert_eq!(in_one.remaining, 11_000);
}

#[test]
fn money_constants() {
    assert_eq!(INITIAL_MONEY, 100);
    assert_eq!(PIG_PRICE, 10);
    assert_eq!(PIG_PAYOUT, 15);
}

#[test]
fn spend_takes_what_is_covered() {
    let mut money = Money(100);
    assert!(money.spend(10));
    assert_eq!(money, Money(90));
    assert!(money.spend(90));
    assert_eq!(money, Money(0));
    assert!(money.spend(0));
    assert_eq!(money, Money(0));
}

#[test]
fn spend_leaves_what_is_not_covered() {
    let mut money = Money(5);
    assert!(!money.spend(10));
    assert_eq!(money, Money(5));
    let mut nearly = Money(9);
    assert!(!nearly.spend(10));
    assert_eq!(nearly.0, 9);
    let mut just = Money(10);
    assert!(just.spend(10));
    assert_eq!(just.0, 0);
}

#[test]
fn credit_adds() {
    let mut money = Money(90);
    money.credit(15);
    assert_eq!(money, Money(105));
    money.credit(0);
    assert_eq!(money, Money(105));
    let mut full = Money(u64::MAX - 15);
    full.credit(15);
    assert_eq!(full.0, u64::MAX);
}
