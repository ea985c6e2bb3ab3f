use guest_rust_macro::grammar::{Ending, Expected, Field, GrammarError, ResolutionInput};
use guest_rust_macro::recognizer::{recognize, recognize_field};
use guest_rust_macro::token::{Delimiter, Flag, Keyword, Setting, Token};

fn text(s: &str) -> Token {
    Token::Str(s.to_string())
}

fn word(name: &str) -> Token {
    Token::ident(name)
}

fn open(delimiter: Delimiter) -> Token {
    Token::Open(delimiter)
}

fn close(delimiter: Delimiter) -> Token {
    Token::Close(delimiter)
}

fn fault(at: usize, expected: Expected) -> GrammarError {
    GrammarError { at, expected }
}

fn braced(mut inner: Vec<Token>) -> Vec<Token> {
    let mut tokens = vec![open(Delimiter::Brace)];
    tokens.append(&mut inner);
    tokens.push(close(Delimiter::Brace));
    tokens
}

fn src_field(name: &str, contents: &str) -> Vec<Token> {
    vec![
        word("src"),
        open(Delimiter::Bracket),
        text(name),
        close(Delimiter::Bracket),
        Token::Punct(':'),
        text(contents),
    ]
}

#[test]
fn src_field_is_recognized() {
    let tokens = src_field("demo", "interface demo {}");
    assert_eq!(
        recognize_field(&tokens, 0),
        Ok((
            Field::Inline { name: "demo".to_string(), text: "interface demo {}".to_string(), at: 5 },
            6
        ))
    );
}

#[test]
fn src_field_is_recognized_where_it_stands() {
    let mut tokens = vec![word("unchecked"), Token::Punct(',')];
    tokens.append(&mut src_field("n", "t"));
    tokens.push(Token::Punct(','));
    assert_eq!(
        recognize_field(&tokens, 2),
        Ok((Field::Inline { name: "n".to_string(), text: "t".to_string(), at: 7 }, 8))
    );
}

#[test]
fn src_field_faults() {
    let whole = src_field("demo", "text");
    for (cut, expected) in [
        (1, Expected::OpenBracket),
        (2, Expected::StringLiteral),
        (3, Expected::CloseBracket),
        (4, Expected::Colon),
        (5, Expected::StringLiteral),
    ] {
        let short = whole[..cut].to_vec();
        assert_eq!(recognize_field(&short, 0), Err(fault(cut, expected)), "cut at {cut}");
        let mut wrong = whole.clone();
        wrong[cut] = Token::Punct('=');
        assert_eq!(recognize_field(&wrong, 0), Err(fault(cut, expected)), "wrong at {cut}");
    }
}

#[test]
fn src_name_takes_one_literal() {
    let tokens = vec![
        word("src"),
        open(Delimiter::Bracket),
        text("a"),
        text("b"),
        close(Delimiter::Bracket),
        Token::Punct(':'),
        text("t"),
    ];
    assert_eq!(recognize_field(&tokens, 0), Err(fault(3, Expected::CloseBracket)));
    let tokens = vec![word("src"), open(Delimiter::Parenthesis), text("a"), close(Delimiter::Parenthesis)];
    assert_eq!(recognize_field(&tokens, 0), Err(fault(1, Expected::OpenBracket)));
}

#[test]
fn paths_field_is_recognized() {
    let tokens = vec![
        word("paths"),
        Token::Punct(':'),
        open(Delimiter::Bracket),
        text("a.wit"),
        Token::Punct(','),
        text("b.wit"),
        close(Delimiter::Bracket),
    ];
    assert_eq!(
        recognize_field(&tokens, 0),
        Ok((Field::Paths { paths: vec!["a.wit".to_string(), "b.wit".to_string()], at: 2 }, 7))
    );
}

#[test]
fn paths_list_may_end_with_a_comma() {
    let tokens = vec![
        word("paths"),
        Token::Punct(':'),
        open(Delimiter::Bracket),
        text("a.wit"),
        Token::Punct(','),
        close(Delimiter::Bracket),
        Token::Punct(','),
    ];
    assert_eq!(
        recognize_field(&tokens, 0),
        Ok((Field::Paths { paths: vec!["a.wit".to_string()], at: 2 }, 6))
    );
}

#[test]
fn paths_list_may_be_empty() {
    let tokens = vec![word("paths"), Token::Punct(':'), open(Delimiter::Bracket), close(Delimiter::Bracket)];
    assert_eq!(recognize_field(&tokens, 0), Ok((Field::Paths { paths: vec![], at: 2 }, 4)));
}

#[test]
fn paths_field_faults() {
    let colon = Token::Punct(':');
    let comma = Token::Punct(',');
    let bracket = open(Delimiter::Bracket);
    let end = close(Delimiter::Bracket);
    let cases: Vec<(Vec<Token>, GrammarError)> = vec![
        (vec![word("paths")], fault(1, Expected::Colon)),
        (vec![word("paths"), Token::Punct('=')], fault(1, Expected::Colon)),
        (vec![word("paths"), colon.clone()], fault(2, Expected::OpenBracket)),
        (vec![word("paths"), colon.clone(), text("a.wit")], fault(2, Expected::OpenBracket)),
        (vec![word("paths"), colon.clone(), open(Delimiter::Brace)], fault(2, Expected::OpenBracket)),
        (vec![word("paths"), colon.clone(), bracket.clone()], fault(3, Expected::StringLiteral)),
        (
            vec![word("paths"), colon.clone(), bracket.clone(), comma.clone(), end.clone()],
            fault(3, Expected::StringLiteral),
        ),
        (
            vec![word("paths"), colon.clone(), bracket.clone(), Token::Literal, end.clone()],
            fault(3, Expected::StringLiteral),
        ),
        (
            vec![word("paths"), colon.clone(), bracket.clone(), text("a"), text("b"), end.clone()],
            fault(4, Expected::Comma),
        ),
        (vec![word("paths"), colon.clone(), bracket.clone(), text("a")], fault(4, Expected::Comma)),
        (
            vec![
                word("paths"),
                colon.clone(),
                bracket.clone(),
                text("a"),
                comma.clone(),
                comma.clone(),
                end.clone(),
            ],
            fault(5, Expected::StringLiteral),
        ),
        (
            vec![word("paths"), colon.clone(), bracket.clone(), text("a"), comma.clone(), word("src")],
            fault(5, Expected::StringLiteral),
        ),
    ];
    for (tokens, expected) in cases {
        assert_eq!(recognize_field(&tokens, 0), Err(expected), "{tokens:?}");
    }
}

#[test]
fn flags_are_one_token() {
    let tokens = vec![word("unchecked"), word("multi_module")];
    assert_eq!(recognize_field(&tokens, 0), Ok((Field::Flag(Flag::Unchecked), 1)));
    assert_eq!(recognize_field(&tokens, 1), Ok((Field::Flag(Flag::MultiModule), 2)));
}

#[test]
fn settings_take_a_string() {
    for (name, setting) in [
        ("export_macro", Setting::ExportMacro),
        ("types_path", Setting::TypesPath),
        ("reexported_crate_path", Setting::ReexportedCratePath),
    ] {
        let tokens = vec![word(name), Token::Punct('='), text("value")];
        assert_eq!(
            recognize_field(&tokens, 0),
            Ok((Field::Setting(setting, "value".to_string()), 3))
        );
        assert_eq!(recognize_field(&tokens[..1].to_vec(), 0), Err(fault(1, Expected::Equals)));
        assert_eq!(recognize_field(&tokens[..2].to_vec(), 0), Err(fault(2, Expected::StringLiteral)));
        let tokens = vec![word(name), Token::Punct(':'), text("value")];
        assert_eq!(recognize_field(&tokens, 0), Err(fault(1, Expected::Equals)));
        let tokens = vec![word(name), Token::Punct('='), Token::Literal];
        assert_eq!(recognize_field(&tokens, 0), Err(fault(2, Expected::StringLiteral)));
        let tokens = vec![word(name), Token::Punct('='), Token::Punct('='), text("value")];
        assert_eq!(recognize_field(&tokens, 0), Err(fault(2, Expected::StringLiteral)));
    }
}

#[test]
fn a_field_starts_with_its_keyword() {
    for token in [
        Token::Ident,
        text("a.wit"),
        Token::Literal,
        Token::Punct(','),
        open(Delimiter::Bracket),
        close(Delimiter::Brace),
    ] {
        assert_eq!(recognize_field(&vec![token], 0), Err(fault(0, Expected::Field)));
    }
    assert_eq!(recognize_field(&vec![], 0), Err(fault(0, Expected::Field)));
    assert_eq!(recognize_field(&vec![word("unchecked")], 1), Err(fault(1, Expected::Field)));
    assert_eq!(recognize_field(&vec![word("unchecked")], 9), Err(fault(9, Expected::Field)));
    assert_eq!(
        recognize_field(&vec![word("unchecked")], usize::MAX),
        Err(fault(usize::MAX, Expected::Field))
    );
}

#[test]
fn structured_fields_come_in_order() {
    let mut inner = vec![word("unchecked"), Token::Punct(',')];
    inner.append(&mut src_field("n", "t"));
    inner.push(Token::Punct(','));
    inner.append(&mut vec![word("export_macro"), Token::Punct('='), text("m")]);
    assert_eq!(
        recognize(&braced(inner)),
        Ok(ResolutionInput::Structured {
            fields: vec![
                Field::Flag(Flag::Unchecked),
                Field::Inline { name: "n".to_string(), text: "t".to_string(), at: 8 },
                Field::Setting(Setting::ExportMacro, "m".to_string()),
            ],
            ending: Ending::Complete,
        })
    );
}

#[test]
fn structured_list_may_be_empty_or_end_with_a_comma() {
    assert_eq!(
        recognize(&braced(vec![])),
        Ok(ResolutionInput::Structured { fields: vec![], ending: Ending::Complete })
    );
    assert_eq!(
        recognize(&braced(vec![word("multi_module"), Token::Punct(',')])),
        Ok(ResolutionInput::Structured {
            fields: vec![Field::Flag(Flag::MultiModule)],
            ending: Ending::Complete,
        })
    );
}

#[test]
fn structured_list_keeps_what_stands_before_a_fault() {
    let cases: Vec<(Vec<Token>, Vec<Field>, GrammarError)> = vec![
        (vec![Token::Punct(',')], vec![], fault(1, Expected::Field)),
        (vec![Token::Punct(','), word("unchecked")], vec![], fault(1, Expected::Field)),
        (
            vec![word("unchecked"), word("multi_module")],
            vec![Field::Flag(Flag::Unchecked)],
            fault(2, Expected::Comma),
        ),
        (
            vec![word("unchecked"), Token::Punct(','), Token::Punct(',')],
            vec![Field::Flag(Flag::Unchecked)],
            fault(3, Expected::Field),
        ),
        (
            vec![word("unchecked"), Token::Punct(';'), word("multi_module")],
            vec![Field::Flag(Flag::Unchecked)],
            fault(2, Expected::Comma),
        ),
        (
            vec![word("unchecked"), Token::Punct(','), word("export_macro"), text("m")],
            vec![Field::Flag(Flag::Unchecked)],
            fault(4, Expected::Equals),
        ),
        (
            vec![word("unchecked"), Token::Punct(','), Token::Ident, Token::Punct(':'), Token::Literal],
            vec![Field::Flag(Flag::Unchecked)],
            fault(3, Expected::Field),
        ),
    ];
    for (inner, fields, expected) in cases {
        assert_eq!(
            recognize(&braced(inner.clone())),
            Ok(ResolutionInput::Structured { fields, ending: Ending::Malformed(expected) }),
            "{inner:?}"
        );
    }
}

#[test]
fn structured_list_without_its_closing_brace() {
    assert_eq!(
        recognize(&vec![open(Delimiter::Brace)]),
        Ok(ResolutionInput::Structured {
            fields: vec![],
            ending: Ending::Malformed(fault(1, Expected::Field)),
        })
    );
    assert_eq!(
        recognize(&vec![open(Delimiter::Brace), word("unchecked")]),
        Ok(ResolutionInput::Structured {
            fields: vec![Field::Flag(Flag::Unchecked)],
            ending: Ending::Malformed(fault(2, Expected::Comma)),
        })
    );
    assert_eq!(
        recognize(&vec![open(Delimiter::Brace), word("unchecked"), close(Delimiter::Bracket)]),
        Ok(ResolutionInput::Structured {
            fields: vec![Field::Flag(Flag::Unchecked)],
            ending: Ending::Malformed(fault(2, Expected::Comma)),
        })
    );
}

#[test]
fn tokens_behind_the_closing_brace_are_found() {
    let mut tokens = braced(vec![word("unchecked")]);
    tokens.push(word("unchecked"));
    tokens.push(text("a.wit"));
    assert_eq!(
        recognize(&tokens),
        Ok(ResolutionInput::Structured {
            fields: vec![Field::Flag(Flag::Unchecked)],
            ending: Ending::Trailing(3),
        })
    );
}

#[test]
fn flat_form_splits_settings_and_paths() {
    let tokens = vec![
        text("a.wit"),
        word("types_path"),
        Token::Punct('='),
        text("t"),
        text("b.wit"),
        word("export_macro"),
        Token::Punct('='),
        text("m"),
        word("types_path"),
        Token::Punct('='),
        text("u"),
    ];
    assert_eq!(
        recognize(&tokens),
        Ok(ResolutionInput::Flat {
            settings: vec![
                Field::Setting(Setting::TypesPath, "t".to_string()),
                Field::Setting(Setting::ExportMacro, "m".to_string()),
                Field::Setting(Setting::TypesPath, "u".to_string()),
            ],
            paths: vec!["a.wit".to_string(), "b.wit".to_string()],
        })
    );
}

#[test]
fn flat_form_may_be_empty() {
    assert_eq!(recognize(&vec![]), Ok(ResolutionInput::Flat { settings: vec![], paths: vec![] }));
}

#[test]
fn flat_form_is_refused_at_the_first_fault() {
    let cases: Vec<(Vec<Token>, GrammarError)> = vec![
        (vec![Token::Ident], fault(0, Expected::StringLiteral)),
        (vec![text("a.wit"), Token::Punct(',')], fault(1, Expected::StringLiteral)),
        (vec![text("a.wit"), word("src")], fault(1, Expected::StringLiteral)),
        (vec![text("a.wit"), word("paths")], fault(1, Expected::StringLiteral)),
        (vec![text("a.wit"), word("multi_module")], fault(1, Expected::StringLiteral)),
        (vec![text("a.wit"), open(Delimiter::Brace)], fault(1, Expected::StringLiteral)),
        (vec![text("a.wit"), word("types_path")], fault(2, Expected::Equals)),
        (vec![word("types_path"), Token::Punct('=')], fault(2, Expected::StringLiteral)),
        (vec![word("types_path"), Token::Punct('='), Token::Literal], fault(2, Expected::StringLiteral)),
        (vec![close(Delimiter::Brace)], fault(0, Expected::StringLiteral)),
        (vec![open(Delimiter::Bracket), text("a.wit"), close(Delimiter::Bracket)], fault(0, Expected::StringLiteral)),
    ];
    for (tokens, expected) in cases {
        assert_eq!(recognize(&tokens), Err(expected), "{tokens:?}");
    }
}

#[test]
fn the_first_token_decides_the_form() {
    assert!(matches!(
        recognize(&vec![open(Delimiter::Brace), text("a.wit"), close(Delimiter::Brace)]),
        Ok(ResolutionInput::Structured { ending: Ending::Malformed(_), .. })
    ));
    assert!(matches!(recognize(&vec![text("a.wit")]), Ok(ResolutionInput::Flat { .. })));
    assert_eq!(
        recognize(&vec![text("a.wit"), open(Delimiter::Brace), close(Delimiter::Brace)]),
        Err(fault(1, Expected::StringLiteral))
    );
}

#[test]
fn keywords_are_told_apart() {
    assert_eq!(word("src"), Token::Keyword(Keyword::Src));
    assert_eq!(recognize_field(&vec![word("src")], 0), Err(fault(1, Expected::OpenBracket)));
    assert_eq!(recognize_field(&vec![word("paths")], 0), Err(fault(1, Expected::Colon)));
}
