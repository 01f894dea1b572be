use werver::dice_roll::total_of;
use werver::dice_roll::DiceRoll;
use werver::dice_roll::DiceType;
use werver::dice_roll::RollProcessing;

fn parsed(s: &str) -> DiceRoll {
    assert!(DiceRoll::can_parse(s));
    match DiceRoll::parse(s) {
        Ok(d) => d,
        Err(e) => panic!("{} did not parse: {}", s, e.to_string()),
    }
}

fn refused(s: &str) -> String {
    assert!(DiceRoll::can_parse(s));
    match DiceRoll::parse(s) {
        Ok(d) => panic!("{} parsed as {}", s, d.to_english()),
        Err(e) => e.to_string(),
    }
}

#[test]
fn dice_types() {
    let all = [
        (DiceType::D4, 4, "d4"),
        (DiceType::D6, 6, "d6"),
        (DiceType::D8, 8, "d8"),
        (DiceType::D10, 10, "d10"),
        (DiceType::D12, 12, "d12"),
        (DiceType::D20, 20, "d20"),
        (DiceType::D100, 100, "d100"),
    ];
    for (t, sides, name) in all {
        assert_eq!(t.sides(), sides);
        assert_eq!(t.to_string(), name);
        assert_eq!(DiceType::from_lowercase(&name[1..]), Some(t));
    }
    assert_eq!(DiceType::from_lowercase("7"), None);
    assert_eq!(DiceType::from_lowercase(""), None);
    assert_eq!(DiceType::from_lowercase("d6"), None);
    assert_eq!(DiceType::from_lowercase("06"), None);
}

#[test]
fn plain_rolls_in_english() {
    assert_eq!(parsed("2d6").to_english(), "2 d6");
    assert_eq!(parsed("d20").to_english(), "1 d20");
    assert_eq!(parsed("10d100").to_english(), "10 d100");
    assert_eq!(parsed("+3d4").to_english(), "3 d4");
    assert_eq!(parsed("0d8").to_english(), "0 d8");
}

#[test]
fn keep_clauses_in_english() {
    assert_eq!(parsed("4d6kh3").to_english(), "4 d6, keeping highest 3 rolls");
    assert_eq!(parsed("12d4kl5").to_english(), "12 d4, keeping lowest 5 rolls");
    assert_eq!(parsed("d12kh1").to_english(), "1 d12, keeping highest 1 rolls");
    assert_eq!(parsed("2d10kl07").to_english(), "2 d10, keeping lowest 7 rolls");
}

#[test]
fn strings_without_the_shape_of_a_roll() {
    assert_eq!(refused("26"), "Invalid dice string: 26");
    assert_eq!(refused(""), "Invalid dice string: ");
    assert_eq!(refused("2D6"), "Invalid dice string: 2D6");
    assert_eq!(refused("2d6kx3"), "Invalid dice string: 2d6kx3");
    assert_eq!(refused("2d6kH3"), "Invalid dice string: 2d6kH3");
    assert_eq!(refused("26kh3"), "Invalid dice string: 26kh3");
}

#[test]
fn unknown_dice_types() {
    assert_eq!(refused("2d7"), "Unknown dice type: 7");
    assert_eq!(refused("2d"), "Unknown dice type: ");
    assert_eq!(refused("2d6d6"), "Unknown dice type: 6d6");
    assert_eq!(refused("2d 6"), "Unknown dice type:  6");
    assert_eq!(refused("2d6 kh1"), "Unknown dice type: 6 ");
}

#[test]
fn counts_that_are_no_numbers() {
    let digit = "x".parse::<usize>().unwrap_err().to_string();
    let empty = "".parse::<usize>().unwrap_err().to_string();
    let large = "99999999999999999999999999".parse::<usize>().unwrap_err().to_string();
    assert_eq!(refused("xd6"), digit);
    assert_eq!(refused("-2d6"), digit);
    assert_eq!(refused("2d6khx"), digit);
    assert_eq!(refused("2d6kh"), empty);
    assert_eq!(refused("99999999999999999999999999d6"), large);
    // the count of the keep clause is read before anything else
    assert_eq!(refused("xd7kzy"), digit);
    assert_eq!(refused("2d7kx1"), "Invalid dice string: 2d7kx1");
    assert_eq!(refused("xd7kl1"), digit);
}

#[test]
fn keep_clause_that_cannot_be_cut() {
    assert!(!DiceRoll::can_parse("2d6k"));
    assert!(!DiceRoll::can_parse("k"));
    assert!(!DiceRoll::can_parse("2d6k\u{e9}3"));
    assert!(DiceRoll::can_parse("2d6kk"));
    assert!(DiceRoll::can_parse("2d6"));
    assert!(DiceRoll::can_parse(""));
    assert!(DiceRoll::can_parse("\u{e9}kh1"));
}

#[test]
fn totals_of_given_rolls() {
    let rolls = vec![3, 1, 4, 1, 5];
    assert_eq!(total_of(rolls.clone(), RollProcessing::KeepAll), 14);
    assert_eq!(total_of(rolls.clone(), RollProcessing::KeepHighest(2)), 9);
    assert_eq!(total_of(rolls.clone(), RollProcessing::KeepLowest(2)), 2);
    assert_eq!(total_of(rolls.clone(), RollProcessing::KeepLowest(3)), 5);
    assert_eq!(total_of(rolls.clone(), RollProcessing::KeepHighest(5)), 14);
    assert_eq!(total_of(rolls.clone(), RollProcessing::KeepHighest(10)), 14);
    assert_eq!(total_of(rolls.clone(), RollProcessing::KeepLowest(0)), 0);
    assert_eq!(total_of(rolls, RollProcessing::KeepHighest(0)), 0);
    assert_eq!(total_of(Vec::new(), RollProcessing::KeepAll), 0);
    assert_eq!(total_of(Vec::new(), RollProcessing::KeepHighest(3)), 0);
    assert_eq!(total_of(vec![u32::MAX - 1, 1], RollProcessing::KeepAll), u32::MAX);
}

#[test]
fn rolls_stay_within_their_bounds() {
    for _ in 0..200 {
        let t = parsed("3d6").roll();
        assert!((3..=18).contains(&t), "{}", t);
        let t = parsed("4d6kh3").roll();
        assert!((3..=18).contains(&t), "{}", t);
        let t = parsed("5d4kl1").roll();
        assert!((1..=4).contains(&t), "{}", t);
        let t = parsed("2d20kh7").roll();
        assert!((2..=40).contains(&t), "{}", t);
    }
    assert_eq!(parsed("0d6").roll(), 0);
    assert_eq!(parsed("3d6kh0").roll(), 0);
}

#[test]
fn rolls_vary() {
    let d = parsed("8d100");
    let first = d.roll();
    assert!((0..200).any(|_| d.roll() != first));
}

#[test]
fn dice_that_cannot_be_rolled() {
    assert!(parsed("3d6").can_roll());
    assert!(parsed("42949672d100").can_roll());
    assert!(!parsed("42949673d100").can_roll());
    assert!(parsed("42949673d100kh1").can_roll());
    assert!(parsed("1073741823d4").can_roll());
    assert!(!parsed("1073741824d4").can_roll());
}

#[test]
fn totals_out_of_reach() {
    let d = parsed("3d6");
    assert!(d.is_out_of_reach(2));
    assert!(!d.is_out_of_reach(3));
    assert!(!d.is_out_of_reach(18));
    assert!(d.is_out_of_reach(19));
    assert!(!parsed("0d6").is_out_of_reach(0));
    assert!(parsed("0d6").is_out_of_reach(1));
}
