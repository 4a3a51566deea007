use faebot::utilities::{capped_stat_value, roll_fudge_dice, roll_multiple_fudge, FudgeResult};

#[test]
fn test_roll() {
    let sides = ["+", "-", "○"];
    assert!(sides.contains(&roll_fudge_dice()));
    assert!(sides.contains(&roll_fudge_dice()));
    assert!(sides.contains(&roll_fudge_dice()));
    assert!(sides.contains(&roll_fudge_dice()));
    assert!(sides.contains(&roll_fudge_dice()));
    assert!(sides.contains(&roll_fudge_dice()));
}

#[test]
fn ladder_names_each_rung() {
    let result = FudgeResult { total: 0, results: Vec::new() };
    assert_eq!(result.ladder_text(8), "Legendary");
    assert_eq!(result.ladder_text(7), "Epic");
    assert_eq!(result.ladder_text(6), "Fantastic");
    assert_eq!(result.ladder_text(5), "Superb");
    assert_eq!(result.ladder_text(4), "Great");
    assert_eq!(result.ladder_text(3), "Good");
    assert_eq!(result.ladder_text(2), "Fair");
    assert_eq!(result.ladder_text(1), "Average");
    assert_eq!(result.ladder_text(0), "Mediocre");
    assert_eq!(result.ladder_text(-1), "Poor");
    assert_eq!(result.ladder_text(-2), "Terrible");
    assert_eq!(result.ladder_text(-3), "Holy !@#$%");
    assert_eq!(result.ladder_text(9), "Holy !@#$%");
}

#[test]
fn ladder_adds_stat_to_total() {
    let result = FudgeResult { total: 3, results: Vec::new() };
    assert_eq!(result.ladder_text(1), "Great");
    let result = FudgeResult { total: -2, results: Vec::new() };
    assert_eq!(result.ladder_text(2), "Mediocre");
}

#[test]
fn merged_results_join_with_separator() {
    let result = FudgeResult {
        total: 0,
        results: vec![String::from("+"), String::from("-"), String::from("○")],
    };
    assert_eq!(result.merged_results(), "+ , - , ○");
    let result = FudgeResult { total: 1, results: vec![String::from("+")] };
    assert_eq!(result.merged_results(), "+");
    let result = FudgeResult { total: 0, results: Vec::new() };
    assert_eq!(result.merged_results(), "");
}

#[test]
fn multiple_fudge_rolls_count_and_total() {
    let roll = roll_multiple_fudge(10);
    assert_eq!(roll.results.len(), 10);
    let sides = ["+", "-", "○"];
    let mut expected_total: i8 = 0;
    for face in &roll.results {
        assert!(sides.contains(&face.as_str()));
        if face == "+" {
            expected_total += 1;
        } else if face == "-" {
            expected_total -= 1;
        }
    }
    assert_eq!(roll.total, expected_total);
    assert!(-10 <= roll.total && roll.total <= 10);
}

#[test]
fn zero_dice_roll_is_empty() {
    let roll = roll_multiple_fudge(0);
    assert_eq!(roll.results.len(), 0);
    assert_eq!(roll.total, 0);
}

#[test]
fn capped_stat_value_pulls_extremes_in() {
    assert_eq!(capped_stat_value(5, 4), 5);
    assert_eq!(capped_stat_value(-128, 4), -124);
    assert_eq!(capped_stat_value(127, 4), 123);
    assert_eq!(capped_stat_value(-124, 4), -124);
    assert_eq!(capped_stat_value(123, 4), 123);
    assert_eq!(capped_stat_value(0, 0), 0);
}
