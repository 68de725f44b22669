use ajisen::dice::{checked_roll, report, roll, roll_dice, Die};

#[test]
fn a_die_shows_one_of_its_faces() {
    let die = Die(6);
    let mut seen = [false; 7];
    for _ in 0..2000 {
        let face = die.roll();
        assert!(1 <= face && face <= 6);
        seen[face as usize] = true;
    }
    assert!(!seen[0]);
    assert!((1..=6).all(|face| seen[face]));
}

#[test]
fn a_die_of_one_side_shows_one() {
    for _ in 0..100 {
        assert_eq!(Die(1).roll(), 1);
    }
}

#[test]
fn a_die_with_the_most_sides_can_be_rolled() {
    let face = Die(u32::MAX - 1).roll();
    assert!(1 <= face && face <= u32::MAX - 1);
}

#[test]
fn no_dice_come_to_nothing() {
    assert_eq!(roll_dice(&vec![]), 0);
    assert_eq!(roll(0, 6), 0);
    assert_eq!(checked_roll(0, 6), Some(0));
}

#[test]
fn dice_of_one_side_come_to_their_number() {
    assert_eq!(roll_dice(&vec![Die(1), Die(1), Die(1)]), 3);
    assert_eq!(roll(17, 1), 17);
}

#[test]
fn dice_come_to_between_their_number_and_their_sides() {
    for _ in 0..500 {
        let total = roll_dice(&vec![Die(4), Die(6), Die(20)]);
        assert!(3 <= total && total <= 30);
        let total = roll(3, 6);
        assert!(3 <= total && total <= 18);
    }
}

#[test]
fn checked_roll_refuses_dice_that_cannot_be_rolled() {
    assert_eq!(checked_roll(1, 0), None);
    assert_eq!(checked_roll(0, 0), None);
    assert_eq!(checked_roll(1, u32::MAX), None);
    assert_eq!(checked_roll(2, u32::MAX - 1), None);
    assert_eq!(checked_roll(65536, 65536), None);
}

#[test]
fn checked_roll_rolls_what_fits() {
    let total = checked_roll(65535, 65537).unwrap();
    assert!(65535 <= total);
    let total = checked_roll(10, 10).unwrap();
    assert!(10 <= total && total <= 100);
    assert_eq!(checked_roll(5, 1), Some(5));
}

#[test]
fn the_report_names_who_asked_what_and_the_result() {
    assert_eq!(
        report("<@42>", "~roll 2d6", 7),
        "<@42> Result of running **2d6** was **7**"
    );
    assert_eq!(
        report("<@42>", "~roll 10d100", 4294967295),
        "<@42> Result of running **10d100** was **4294967295**"
    );
    assert_eq!(report("<@7>", "~roll 0d6", 0), "<@7> Result of running **0d6** was **0**");
}

#[test]
fn the_report_drops_the_command_word_wherever_it_stands() {
    assert_eq!(
        report("<@42>", "~roll ~roll 1d~roll 6", 3),
        "<@42> Result of running **1d6** was **3**"
    );
    assert_eq!(report("<@42>", "~roll1d6", 3), "<@42> Result of running **~roll1d6** was **3**");
}

#[test]
fn the_report_renders_what_was_asked_harmless() {
    assert_eq!(
        report("<@42>", "~roll @everyone**d**6", 1),
        "<@42> Result of running **@\u{200b}everyone d 6** was **1**"
    );
    assert_eq!(
        report("<@42>", "~roll discord.gg/x", 1),
        "<@42> Result of running **discord\u{2024}gg/x** was **1**"
    );
}
