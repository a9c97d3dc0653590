use cara::rules::{
    DrawRule, DrawRuleParsingError, ResignRule, ResignRuleParsingError, parse_draw_rule,
    parse_resign_rule,
};

#[test]
fn resign_rule_new_validates() {
    assert!(ResignRule::new(250, 3).is_ok());
    assert_eq!(ResignRule::new(0, 3).unwrap_err(), "eval is out of range.");
    assert_eq!(ResignRule::new(-5, 3).unwrap_err(), "eval is out of range.");
    assert_eq!(ResignRule::new(250, 0).unwrap_err(), "count is out of range.");
}

#[test]
fn draw_rule_new_validates() {
    assert!(DrawRule::new(34, 30, 8).is_ok());
    assert!(DrawRule::new(10000, 0, 10000).is_ok());
    assert_eq!(DrawRule::new(0, 30, 8).unwrap_err(), "from_move is out of range.");
    assert_eq!(DrawRule::new(34, -1, 8).unwrap_err(), "eval is out of range.");
    assert_eq!(DrawRule::new(34, 30, 0).unwrap_err(), "count is out of range.");
}

#[test]
fn resign_rule_parsing() {
    assert!(parse_resign_rule("none").is_ok());
    assert!(parse_resign_rule("250/3").is_ok());
    assert_eq!(parse_resign_rule("abc").unwrap_err(), ResignRuleParsingError::BadFormat);
    assert_eq!(parse_resign_rule("").unwrap_err(), ResignRuleParsingError::BadFormat);
    assert_eq!(parse_resign_rule("250").unwrap_err(), ResignRuleParsingError::BadFormat);
    assert_eq!(parse_resign_rule("250/").unwrap_err(), ResignRuleParsingError::BadFormat);
    assert_eq!(parse_resign_rule("250/x").unwrap_err(), ResignRuleParsingError::BadFormat);
    assert_eq!(parse_resign_rule("2147483648/3").unwrap_err(), ResignRuleParsingError::BadFormat);
    assert_eq!(parse_resign_rule("0/3").unwrap_err(), ResignRuleParsingError::NonPositiveEval);
    assert_eq!(parse_resign_rule("-5/3").unwrap_err(), ResignRuleParsingError::NonPositiveEval);
    assert_eq!(parse_resign_rule("250/0").unwrap_err(), ResignRuleParsingError::NonPositiveCount);
}

#[test]
fn draw_rule_parsing() {
    assert!(parse_draw_rule("none").is_ok());
    assert!(parse_draw_rule("34:30/8").is_ok());
    assert_eq!(parse_draw_rule("abc").unwrap_err(), DrawRuleParsingError::BadFormat);
    assert_eq!(parse_draw_rule("34").unwrap_err(), DrawRuleParsingError::BadFormat);
    assert_eq!(parse_draw_rule("34:30").unwrap_err(), DrawRuleParsingError::BadFormat);
    assert_eq!(parse_draw_rule("x:30/8").unwrap_err(), DrawRuleParsingError::BadFormat);
    assert_eq!(parse_draw_rule("34:30/x").unwrap_err(), DrawRuleParsingError::BadFormat);
    assert_eq!(
        parse_draw_rule("0:30/8").unwrap_err(),
        DrawRuleParsingError::NonPositiveFromMove
    );
    // A zero window is reported as a negative one.
    assert_eq!(parse_draw_rule("34:0/8").unwrap_err(), DrawRuleParsingError::NegativeEval);
    assert_eq!(parse_draw_rule("34:-5/8").unwrap_err(), DrawRuleParsingError::NegativeEval);
    assert_eq!(parse_draw_rule("34:30/0").unwrap_err(), DrawRuleParsingError::NonPositiveCount);
}
