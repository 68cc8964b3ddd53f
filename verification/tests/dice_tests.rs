use mud_core::dice::{low_byte, Dice};

#[test]
fn range_test() {
    let die = Dice { number: 3, die: 6 };
    for _i in 1..100 {
        assert!(die.roll() <= 18);
        assert!(die.roll() >= 3);
    }
}

#[test]
fn no_dice_roll_nothing() {
    let none = Dice { number: 0, die: 6 };
    assert_eq!(none.roll(), 0);
    let fewer = Dice { number: -2, die: 6 };
    assert_eq!(fewer.roll(), 0);
}

#[test]
fn one_sided_die_is_certain() {
    let die = Dice { number: 4, die: 1 };
    assert_eq!(die.roll(), 4);
}

#[test]
fn throwable_dice() {
    assert!(Dice { number: 1, die: 100 }.is_throwable());
    assert!(Dice { number: 0, die: 0 }.is_throwable());
    assert!(!Dice { number: 1, die: 0 }.is_throwable());
    assert!(Dice { number: 327, die: 100 }.is_throwable());
    assert!(!Dice { number: 328, die: 100 }.is_throwable());
}

#[test]
fn the_low_byte_of_a_word() {
    assert_eq!(low_byte(0), 0);
    assert_eq!(low_byte(255), 255);
    assert_eq!(low_byte(256), 0);
    assert_eq!(low_byte(1000), 232);
    assert_eq!(low_byte(usize::MAX), 255);
}
