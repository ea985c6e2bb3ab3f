use std::str::FromStr;

use guest_rust_macro::error::{Error, GenerationError, Span};
use guest_rust_macro::grammar::{Expected, GrammarError};
use guest_rust_macro::options::GeneratorOptions;
use guest_rust_macro::package::Direction;
use guest_rust_macro::plan::Request;
use guest_rust_macro::session::{export, import, Action, Event, Session, Stage};
use guest_rust_macro::token::{Delimiter, Token};

fn flatten(stream: proc_macro2::TokenStream, tokens: &mut Vec<Token>) {
    for tree in stream {
        match tree {
            proc_macro2::TokenTree::Group(group) => {
                let delimiter = match group.delimiter() {
                    proc_macro2::Delimiter::Brace => Some(Delimiter::Brace),
                    proc_macro2::Delimiter::Bracket => Some(Delimiter::Bracket),
                    proc_macro2::Delimiter::Parenthesis => Some(Delimiter::Parenthesis),
                    proc_macro2::Delimiter::None => None,
                };
                if let Some(delimiter) = delimiter {
                    tokens.push(Token::Open(delimiter));
                }
                flatten(group.stream(), tokens);
                if let Some(delimiter) = delimiter {
                    tokens.push(Token::Close(delimiter));
                }
            }
            proc_macro2::TokenTree::Ident(ident) => tokens.push(Token::ident(&ident.to_string())),
            proc_macro2::TokenTree::Punct(punct) => tokens.push(Token::Punct(punct.as_char())),
            proc_macro2::TokenTree::Literal(literal) => tokens.push(Token::literal(&literal.to_string())),
        }
    }
}

fn lex(source: &str) -> Vec<Token> {
    let mut tokens = Vec::new();
    flatten(proc_macro2::TokenStream::from_str(source).unwrap(), &mut tokens);
    tokens
}

fn file(path: &str, span: Span) -> Action<String> {
    Action::Resolve(Request::File { path: path.to_string(), span })
}

fn opened(interface: &str, path: &str) -> Event<String> {
    Event::Opened { interface: interface.to_string(), path: path.to_string() }
}

fn unset() -> GeneratorOptions {
    GeneratorOptions {
        unchecked: false,
        multi_module: false,
        export_macro: None,
        types_path: None,
        reexported_crate_path: None,
    }
}

fn grammar(at: usize, expected: Expected) -> Action<String> {
    Action::Abort(Error::Grammar(GrammarError { at, expected }))
}

/// Answers every request with an interface named after what was asked for,
/// and returns the action that is neither a request nor refused.
fn resolve_all(source: &str, direction: Direction) -> (Session<String>, Action<String>) {
    let (mut session, mut action) = Session::<String>::start(&lex(source), direction);
    loop {
        let event = match &action {
            Action::Resolve(Request::Text { name, .. }) => Event::Parsed(format!("text:{name}")),
            Action::Resolve(Request::File { path, .. }) => Event::Opened {
                interface: format!("file:{path}"),
                path: format!("/base/{path}"),
            },
            _ => return (session, action),
        };
        assert!(session.accepts(&event));
        (session, action) = session.step(event);
    }
}

#[test]
fn listed_paths_yield_one_pass_and_two_markers() {
    let tokens = lex("{ paths: [\"a.wit\", \"b.wit\"] }");
    let (session, action) = import::<String>(&tokens);
    assert_eq!(action, file("a.wit", Span::Token(3)));
    assert_eq!(session.stage(), Stage::Resolving);

    let (session, action) = session.step(opened("A", "/base/a.wit"));
    assert_eq!(action, file("b.wit", Span::Token(3)));

    let (session, action) = session.step(opened("B", "/base/b.wit"));
    assert_eq!(
        action,
        Action::Generate {
            options: unset(),
            imports: vec!["A".to_string(), "B".to_string()],
            exports: vec![],
        }
    );
    assert_eq!(session.stage(), Stage::Generating);

    let (session, action) = session.step(Event::Generated(vec![b"mod generated {}\n".to_vec()]));
    assert_eq!(
        action,
        Action::Finish(
            "mod generated {}\n\
             const _: &str = include_str!(r#\"/base/a.wit\"#);\n\
             const _: &str = include_str!(r#\"/base/b.wit\"#);\n"
                .to_string()
        )
    );
    assert_eq!(session.stage(), Stage::Done);
    assert_eq!(session.files_read(), &vec!["/base/a.wit".to_string(), "/base/b.wit".to_string()]);
}

#[test]
fn inline_source_touches_no_file() {
    let tokens = lex("{ src[\"demo\"]: \"interface demo {}\" }");
    let (session, action) = import::<String>(&tokens);
    assert_eq!(
        action,
        Action::Resolve(Request::Text {
            name: "demo".to_string(),
            text: "interface demo {}".to_string(),
            span: Span::Token(6),
        })
    );
    let (session, action) = session.step(Event::Parsed("Demo".to_string()));
    assert_eq!(
        action,
        Action::Generate { options: unset(), imports: vec!["Demo".to_string()], exports: vec![] }
    );
    assert!(session.files_read().is_empty());
    let (session, action) = session.step(Event::Generated(vec![b"generated".to_vec()]));
    assert_eq!(action, Action::Finish("generated".to_string()));
    assert!(session.files_read().is_empty());
}

#[test]
fn inline_source_without_braces_is_no_flat_invocation() {
    let (session, action) = import::<String>(&lex("src[\"demo\"]: \"interface demo {}\""));
    assert_eq!(action, grammar(0, Expected::StringLiteral));
    assert_eq!(session.stage(), Stage::Failed);
}

#[test]
fn unknown_field_is_refused_at_its_token() {
    let (session, action) = import::<String>(&lex("{ bogus_field: 1 }"));
    assert_eq!(action, grammar(1, Expected::Field));
    assert_eq!(session.stage(), Stage::Failed);
    match action {
        Action::Abort(error) => {
            assert_eq!(error.span(), Span::Token(1));
            assert_eq!(
                error.message(),
                "expected one of: `src`, `paths`, `unchecked`, `multi_module`, `export_macro`, \
                 `types_path`, `reexported_crate_path`"
            );
        }
        _ => unreachable!(),
    }
}

#[test]
fn structured_invocation_without_source_is_refused() {
    for source in [
        "{}",
        "{ unchecked }",
        "{ unchecked, }",
        "{ multi_module, export_macro = \"m\" }",
        "{ types_path = \"t\", reexported_crate_path = \"r\", unchecked, multi_module }",
    ] {
        let (session, action) = export::<String>(&lex(source));
        assert_eq!(action, Action::Abort(Error::EmptyInterfaceSet), "{source}");
        assert_eq!(session.stage(), Stage::Failed);
    }
}

#[test]
fn missing_interfaces_are_reported_at_the_call_site() {
    let error = Error::EmptyInterfaceSet;
    assert_eq!(error.span(), Span::CallSite);
    assert_eq!(error.message(), "must either specify `src` or `paths` keys");
}

#[test]
fn flat_literals_resolve_left_to_right() {
    let tokens = lex("\"a.wit\" export_macro = \"m\" \"b.wit\" \"c.wit\"");
    let (session, action) = import::<String>(&tokens);
    assert_eq!(action, file("a.wit", Span::CallSite));
    let (session, action) = session.step(opened("A", "/base/a.wit"));
    assert_eq!(action, file("b.wit", Span::CallSite));
    let (session, action) = session.step(opened("B", "/base/b.wit"));
    assert_eq!(action, file("c.wit", Span::CallSite));
    let (session, action) = session.step(opened("C", "/base/c.wit"));
    let mut options = unset();
    options.export_macro = Some("m".to_string());
    assert_eq!(
        action,
        Action::Generate {
            options,
            imports: vec!["A".to_string(), "B".to_string(), "C".to_string()],
            exports: vec![],
        }
    );
    assert_eq!(
        session.files_read(),
        &vec!["/base/a.wit".to_string(), "/base/b.wit".to_string(), "/base/c.wit".to_string()]
    );
}

#[test]
fn flat_invocation_without_literals_goes_straight_to_the_generator() {
    for source in ["", "types_path = \"t\""] {
        let (session, action) = import::<String>(&lex(source));
        match action {
            Action::Generate { imports, exports, .. } => {
                assert!(imports.is_empty());
                assert!(exports.is_empty());
            }
            other => panic!("{other:?}"),
        }
        assert_eq!(session.stage(), Stage::Generating);
    }
}

#[test]
fn flat_settings_reach_the_options() {
    let (_, action) = resolve_all(
        "export_macro = \"m\" types_path = \"t\" reexported_crate_path = \"r\"",
        Direction::Import,
    );
    assert_eq!(
        action,
        Action::Generate {
            options: GeneratorOptions {
                unchecked: false,
                multi_module: false,
                export_macro: Some("m".to_string()),
                types_path: Some("t".to_string()),
                reexported_crate_path: Some("r".to_string()),
            },
            imports: vec![],
            exports: vec![],
        }
    );
}

#[test]
fn flags_are_no_part_of_the_flat_form() {
    let (_, action) = import::<String>(&lex("\"a.wit\" unchecked"));
    assert_eq!(action, grammar(1, Expected::StringLiteral));
    let (_, action) = import::<String>(&lex("bogus"));
    assert_eq!(action, grammar(0, Expected::StringLiteral));
    let (_, action) = import::<String>(&lex("\"a.wit\" 7"));
    assert_eq!(action, grammar(1, Expected::StringLiteral));
}

#[test]
fn unchecked_twice_is_unchecked_once() {
    let (_, once) = resolve_all("{ unchecked, src[\"d\"]: \"\" }", Direction::Import);
    let (_, twice) = resolve_all("{ unchecked, src[\"d\"]: \"\", unchecked }", Direction::Import);
    let (_, thrice) = resolve_all("{ unchecked, unchecked, src[\"d\"]: \"\", unchecked }", Direction::Import);
    let mut options = unset();
    options.unchecked = true;
    assert_eq!(
        once,
        Action::Generate { options, imports: vec!["text:d".to_string()], exports: vec![] }
    );
    assert_eq!(once, twice);
    assert_eq!(once, thrice);
}

#[test]
fn multi_module_is_passed_through() {
    let (_, action) = resolve_all("{ src[\"d\"]: \"\", multi_module, multi_module }", Direction::Import);
    let mut options = unset();
    options.multi_module = true;
    assert_eq!(
        action,
        Action::Generate { options, imports: vec!["text:d".to_string()], exports: vec![] }
    );
}

#[test]
fn later_export_macro_wins() {
    let (_, action) = resolve_all(
        "{ export_macro = \"a\", src[\"d\"]: \"\", export_macro = \"b\" }",
        Direction::Import,
    );
    let mut options = unset();
    options.export_macro = Some("b".to_string());
    assert_eq!(
        action,
        Action::Generate { options, imports: vec!["text:d".to_string()], exports: vec![] }
    );

    let (_, action) = resolve_all("export_macro = \"a\" export_macro = \"b\"", Direction::Import);
    let mut options = unset();
    options.export_macro = Some("b".to_string());
    assert_eq!(action, Action::Generate { options, imports: vec![], exports: vec![] });
}

#[test]
fn export_direction_fills_the_export_slot() {
    let (_, action) = resolve_all("{ paths: [\"a.wit\", \"b.wit\"] }", Direction::Export);
    assert_eq!(
        action,
        Action::Generate {
            options: unset(),
            imports: vec![],
            exports: vec!["file:a.wit".to_string(), "file:b.wit".to_string()],
        }
    );
    let (_, action) = resolve_all("\"a.wit\"", Direction::Export);
    assert_eq!(
        action,
        Action::Generate { options: unset(), imports: vec![], exports: vec!["file:a.wit".to_string()] }
    );
}

#[test]
fn refused_path_carries_the_span_of_its_list() {
    let tokens = lex("{ unchecked, paths: [\"a.wit\", \"missing.wit\", \"c.wit\"] }");
    let (session, action) = import::<String>(&tokens);
    assert_eq!(action, file("a.wit", Span::Token(5)));
    let (session, action) = session.step(opened("A", "/base/a.wit"));
    assert_eq!(action, file("missing.wit", Span::Token(5)));
    let (session, action) = session.step(Event::Rejected("failed to read file".to_string()));
    assert_eq!(
        action,
        Action::Abort(Error::Resolution {
            span: Span::Token(5),
            message: "failed to read file".to_string(),
        })
    );
    assert_eq!(session.stage(), Stage::Failed);
    assert!(!session.accepts(&opened("C", "/base/c.wit")));
}

#[test]
fn refused_text_carries_the_span_of_the_text() {
    let (session, action) = import::<String>(&lex("{ src[\"demo\"]: \"not an interface\" }"));
    assert!(matches!(action, Action::Resolve(Request::Text { .. })));
    let (_, action) = session.step(Event::Rejected("expected `interface`".to_string()));
    match action {
        Action::Abort(error) => {
            assert_eq!(error.span(), Span::Token(6));
            assert_eq!(error.message(), "expected `interface`");
        }
        other => panic!("{other:?}"),
    }
}

#[test]
fn refused_flat_path_is_reported_at_the_call_site() {
    let (session, _) = import::<String>(&lex("\"missing.wit\" \"b.wit\""));
    let (session, action) = session.step(Event::Rejected("no such file".to_string()));
    assert_eq!(
        action,
        Action::Abort(Error::Resolution { span: Span::CallSite, message: "no such file".to_string() })
    );
    assert_eq!(session.stage(), Stage::Failed);
}

#[test]
fn sources_before_a_malformed_field_are_resolved_first() {
    let tokens = lex("{ paths: [\"a.wit\"], bogus }");
    let (session, action) = import::<String>(&tokens);
    assert_eq!(action, file("a.wit", Span::Token(3)));
    let (session, action) = session.step(opened("A", "/base/a.wit"));
    assert_eq!(action, grammar(7, Expected::Field));
    assert_eq!(session.stage(), Stage::Failed);

    let (session, action) = import::<String>(&tokens);
    assert_eq!(action, file("a.wit", Span::Token(3)));
    let (_, action) = session.step(Event::Rejected("no such file".to_string()));
    assert_eq!(
        action,
        Action::Abort(Error::Resolution { span: Span::Token(3), message: "no such file".to_string() })
    );
}

#[test]
fn malformed_field_stops_what_stands_behind_it() {
    let (_, action) = import::<String>(&lex("{ bogus, paths: [\"a.wit\"] }"));
    assert_eq!(action, grammar(1, Expected::Field));
    let (_, action) = import::<String>(&lex("{ paths [\"a.wit\"] }"));
    assert_eq!(action, grammar(2, Expected::Colon));
}

#[test]
fn malformed_flat_invocation_resolves_nothing() {
    let (session, action) = import::<String>(&lex("\"a.wit\" export_macro \"m\""));
    assert_eq!(action, grammar(2, Expected::Equals));
    assert_eq!(session.stage(), Stage::Failed);
}

#[test]
fn last_source_replaces_earlier_ones() {
    let (session, action) = resolve_all(
        "{ paths: [\"a.wit\", \"b.wit\"], src[\"d\"]: \"\" }",
        Direction::Import,
    );
    assert_eq!(
        action,
        Action::Generate { options: unset(), imports: vec!["text:d".to_string()], exports: vec![] }
    );
    assert_eq!(session.files_read(), &vec!["/base/a.wit".to_string(), "/base/b.wit".to_string()]);

    let (session, action) = resolve_all(
        "{ src[\"d\"]: \"\", paths: [\"a.wit\"], paths: [\"b.wit\", \"c.wit\"] }",
        Direction::Import,
    );
    assert_eq!(
        action,
        Action::Generate {
            options: unset(),
            imports: vec!["file:b.wit".to_string(), "file:c.wit".to_string()],
            exports: vec![],
        }
    );
    assert_eq!(
        session.files_read(),
        &vec!["/base/a.wit".to_string(), "/base/b.wit".to_string(), "/base/c.wit".to_string()]
    );
}

#[test]
fn empty_list_leaves_no_interface() {
    let (_, action) = resolve_all("{ paths: [] }", Direction::Import);
    assert_eq!(action, Action::Abort(Error::EmptyInterfaceSet));
    let (session, action) = resolve_all("{ src[\"d\"]: \"\", paths: [] }", Direction::Import);
    assert_eq!(action, Action::Abort(Error::EmptyInterfaceSet));
    assert!(session.files_read().is_empty());
}

#[test]
fn tokens_behind_the_closing_brace_are_refused_last() {
    let (session, action) = import::<String>(&lex("{ src[\"d\"]: \"\" } unchecked"));
    assert!(matches!(action, Action::Resolve(Request::Text { .. })));
    let (_, action) = session.step(Event::Parsed("D".to_string()));
    assert_eq!(action, grammar(8, Expected::End));

    let (_, action) = import::<String>(&lex("{ unchecked } unchecked"));
    assert_eq!(action, Action::Abort(Error::EmptyInterfaceSet));
}

#[test]
fn a_path_listed_twice_is_read_and_marked_twice() {
    let (session, action) = resolve_all("{ paths: [\"a.wit\", \"a.wit\"] }", Direction::Import);
    assert_eq!(
        action,
        Action::Generate {
            options: unset(),
            imports: vec!["file:a.wit".to_string(), "file:a.wit".to_string()],
            exports: vec![],
        }
    );
    let (_, action) = session.step(Event::Generated(vec![Vec::new()]));
    assert_eq!(
        action,
        Action::Finish(
            "const _: &str = include_str!(r#\"/base/a.wit\"#);\n\
             const _: &str = include_str!(r#\"/base/a.wit\"#);\n"
                .to_string()
        )
    );
}

#[test]
fn failing_generator_aborts() {
    let (session, _) = resolve_all("\"a.wit\"", Direction::Import);
    let (session, action) = session.step(Event::GeneratorFailed("no default world".to_string()));
    assert_eq!(
        action,
        Action::Abort(Error::Generation(GenerationError::Failed("no default world".to_string())))
    );
    assert_eq!(session.stage(), Stage::Failed);
}

#[test]
fn generator_without_output_aborts() {
    let (session, _) = resolve_all("\"a.wit\"", Direction::Import);
    let (_, action) = session.step(Event::Generated(vec![]));
    assert_eq!(action, Action::Abort(Error::Generation(GenerationError::NoOutput)));
}

#[test]
fn output_that_is_no_text_aborts() {
    let (session, _) = resolve_all("\"a.wit\"", Direction::Import);
    let (_, action) = session.step(Event::Generated(vec![vec![b'o', b'k', 0xff]]));
    assert_eq!(action, Action::Abort(Error::Generation(GenerationError::NotText)));
}

#[test]
fn only_the_first_output_file_is_the_expansion() {
    let (session, _) = resolve_all("{ src[\"d\"]: \"\" }", Direction::Import);
    let (_, action) =
        session.step(Event::Generated(vec![b"first".to_vec(), b"second".to_vec(), vec![0xff]]));
    assert_eq!(action, Action::Finish("first".to_string()));
}

#[test]
fn session_accepts_only_what_it_awaits() {
    let (session, _) = import::<String>(&lex("{ src[\"d\"]: \"\", paths: [\"a.wit\"] }"));
    assert!(session.accepts(&Event::Parsed("D".to_string())));
    assert!(session.accepts(&Event::Rejected("no".to_string())));
    assert!(!session.accepts(&opened("A", "/base/a.wit")));
    assert!(!session.accepts(&Event::Generated(vec![])));
    assert!(!session.accepts(&Event::GeneratorFailed("no".to_string())));

    let (session, _) = session.step(Event::Parsed("D".to_string()));
    assert!(!session.accepts(&Event::Parsed("D".to_string())));
    assert!(session.accepts(&opened("A", "/base/a.wit")));
    assert!(session.accepts(&Event::Rejected("no".to_string())));

    let (session, _) = session.step(opened("A", "/base/a.wit"));
    assert_eq!(session.stage(), Stage::Generating);
    assert!(session.accepts(&Event::Generated(vec![])));
    assert!(session.accepts(&Event::GeneratorFailed("no".to_string())));
    assert!(!session.accepts(&Event::Parsed("D".to_string())));
    assert!(!session.accepts(&Event::Rejected("no".to_string())));

    let (session, _) = session.step(Event::Generated(vec![b"x".to_vec()]));
    assert_eq!(session.stage(), Stage::Done);
    assert!(!session.accepts(&Event::Generated(vec![])));
    assert!(!session.accepts(&Event::Parsed("D".to_string())));
    assert!(!session.accepts(&Event::Rejected("no".to_string())));
}

#[test]
fn escapes_in_paths_are_resolved_before_the_request() {
    let (_, action) = import::<String>(&lex("{ paths: [\"dir\\\\a.wit\", r\"dir\\b.wit\"] }"));
    assert_eq!(action, file("dir\\a.wit", Span::Token(3)));
    let (_, action) = import::<String>(&lex("r#\"we\"ird.wit\"#"));
    assert_eq!(action, file("we\"ird.wit", Span::CallSite));
}

#[test]
fn start_in_a_direction_is_import_or_export() {
    let tokens = lex("\"a.wit\"");
    let (_, by_start) = Session::<String>::start(&tokens, Direction::Import);
    let (_, by_name) = import::<String>(&tokens);
    assert_eq!(by_start, by_name);
    let (_, by_start) = Session::<String>::start(&tokens, Direction::Export);
    let (_, by_name) = export::<String>(&tokens);
    assert_eq!(by_start, by_name);
}
