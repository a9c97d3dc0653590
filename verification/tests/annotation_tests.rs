use cara::MoveData;
use cara::annotation::CommentParser;

#[test]
fn comment_parsing() {
    let comment_parser = CommentParser::new();

    assert_eq!(comment_parser.parse("-1.91/13 0.031s"), Ok(MoveData { eval: -191, time: 31 }));
    assert_eq!(comment_parser.parse("+0.18/15 0.45s"), Ok(MoveData { eval: 18, time: 450 }));
    assert_eq!(comment_parser.parse("+M17/21 0.020s"), Ok(MoveData { eval: 10000, time: 20 }));
    assert_eq!(comment_parser.parse("-M26/18 0.022s"), Ok(MoveData { eval: -10000, time: 22 }));
}

#[test]
fn comment_parsing_scaling() {
    let p = CommentParser::new();

    // One fractional time digit scales by 100, two by 10, three by 1.
    assert_eq!(p.parse("1.00/1 0.2s"), Ok(MoveData { eval: 100, time: 200 }));
    assert_eq!(p.parse("1.00/1 0.45s"), Ok(MoveData { eval: 100, time: 450 }));
    assert_eq!(p.parse("1.00/1 0.031s"), Ok(MoveData { eval: 100, time: 31 }));
    // No fractional part at all.
    assert_eq!(p.parse("0.07/9 3s"), Ok(MoveData { eval: 7, time: 3000 }));
    // An unsigned evaluation defaults to positive.
    assert_eq!(p.parse("2.50/8 1.5s"), Ok(MoveData { eval: 250, time: 1500 }));
    // Trailing characters after the match are ignored.
    assert_eq!(p.parse("+0.18/15 0.45s trailing"), Ok(MoveData { eval: 18, time: 450 }));
}

#[test]
fn comment_parsing_rejects_bad_grammar() {
    let p = CommentParser::new();

    assert_eq!(p.parse(""), Err(()));
    // Missing the depth separator.
    assert_eq!(p.parse("-1.91 0.031s"), Err(()));
    // Missing the trailing `s`.
    assert_eq!(p.parse("-1.91/13 0.031"), Err(()));
    // The evaluation needs exactly two fractional digits.
    assert_eq!(p.parse("-1.9/13 0.031s"), Err(()));
    assert_eq!(p.parse("-1.915/13 0.031s"), Err(()));
    assert_eq!(p.parse("-1/13 0.031s"), Err(()));
    // A mate marker needs digits.
    assert_eq!(p.parse("+M/21 0.020s"), Err(()));
    // The depth needs digits.
    assert_eq!(p.parse("-1.91/ 0.031s"), Err(()));
    // Exactly one whitespace character after the depth.
    assert_eq!(p.parse("-1.91/13  0.031s"), Err(()));
    assert_eq!(p.parse("-1.91/130.031s"), Err(()));
    // The time takes at most three fractional digits.
    assert_eq!(p.parse("-1.91/13 0.0313s"), Err(()));
    assert_eq!(p.parse("-1.91/13 0.s"), Err(()));
    // The grammar is anchored at the start.
    assert_eq!(p.parse("x -1.91/13 0.031s"), Err(()));
}

#[test]
fn comment_parsing_rejects_out_of_range_values() {
    let p = CommentParser::new();

    // An evaluation magnitude beyond i32 is rejected, not wrapped.
    assert_eq!(p.parse("99999999999999999999.00/1 1s"), Err(()));
    assert_eq!(p.parse("21474836.47/1 1s"), Ok(MoveData { eval: 2147483647, time: 1000 }));
    assert_eq!(p.parse("21474836.48/1 1s"), Err(()));
    // A time beyond u32 milliseconds is rejected.
    assert_eq!(p.parse("1.00/1 99999999999s"), Err(()));
    assert_eq!(p.parse("1.00/1 4294967.295s"), Ok(MoveData { eval: 100, time: 4294967295 }));
    assert_eq!(p.parse("1.00/1 4294967.296s"), Err(()));
}
