//! The recognizers: what [`crate::grammar`] defines, computed.

use vstd::prelude::*;
use crate::grammar::{
    field_at, fields_from, flat_from, flat_with_front, holds, keyword_at, lemma_field_advances,
    list_from, recognized, setting_at, string_at, with_front, Ending, Expected, Field, FieldView,
    GrammarError, ResolutionInput, ResolutionInputView,
};
use crate::token::{Delimiter, Keyword, Setting, Token, TokenView};

verus! {

/// The mathematical value of what a field recognizer returns.
pub open spec fn field_outcome(r: Result<(Field, usize), GrammarError>) -> Result<
    (FieldView, int),
    GrammarError,
> {
    match r {
        Ok((field, next)) => Ok((field@, next as int)),
        Err(e) => Err(e),
    }
}

/// The mathematical value of what the recognizer of a path list returns.
pub open spec fn list_outcome(r: Result<(Vec<String>, usize), GrammarError>) -> Result<
    (Seq<Seq<char>>, int),
    GrammarError,
> {
    match r {
        Ok((paths, end)) => Ok((paths.deep_view(), end as int)),
        Err(e) => Err(e),
    }
}

/// The mathematical value of what the recognizer of the flat form returns.
pub open spec fn flat_outcome(r: Result<(Vec<Field>, Vec<String>), GrammarError>) -> Result<
    (Seq<FieldView>, Seq<Seq<char>>),
    GrammarError,
> {
    match r {
        Ok((settings, paths)) => Ok((settings.deep_view(), paths.deep_view())),
        Err(e) => Err(e),
    }
}

/// The mathematical value of what [`recognize`] returns.
pub open spec fn input_outcome(r: Result<ResolutionInput, GrammarError>) -> Result<
    ResolutionInputView,
    GrammarError,
> {
    match r {
        Ok(input) => Ok(input@),
        Err(e) => Err(e),
    }
}

fn punct_at(tokens: &Vec<Token>, pos: usize, mark: char) -> (found: bool)
    ensures
        found == holds(tokens.deep_view(), pos as int, TokenView::Punct(mark)),
        found ==> pos < tokens.len(),
{
    if pos < tokens.len() {
        match &tokens[pos] {
            Token::Punct(c) => *c == mark,
            _ => false,
        }
    } else {
        false
    }
}

fn open_at(tokens: &Vec<Token>, pos: usize, delimiter: Delimiter) -> (found: bool)
    ensures
        found == holds(tokens.deep_view(), pos as int, TokenView::Open(delimiter)),
        found ==> pos < tokens.len(),
{
    if pos < tokens.len() {
        match &tokens[pos] {
            Token::Open(d) => *d == delimiter,
            _ => false,
        }
    } else {
        false
    }
}

fn close_at(tokens: &Vec<Token>, pos: usize, delimiter: Delimiter) -> (found: bool)
    ensures
        found == holds(tokens.deep_view(), pos as int, TokenView::Close(delimiter)),
        found ==> pos < tokens.len(),
{
    if pos < tokens.len() {
        match &tokens[pos] {
            Token::Close(d) => *d == delimiter,
            _ => false,
        }
    } else {
        false
    }
}

fn text_at(tokens: &Vec<Token>, pos: usize) -> (text: Option<String>)
    ensures
        text.deep_view() == string_at(tokens.deep_view(), pos as int),
        text is Some ==> pos < tokens.len(),
{
    if pos < tokens.len() {
        match &tokens[pos] {
            Token::Str(text) => Some(text.clone()),
            _ => None,
        }
    } else {
        None
    }
}

fn word_at(tokens: &Vec<Token>, pos: usize) -> (keyword: Option<Keyword>)
    ensures
        keyword == keyword_at(tokens.deep_view(), pos as int),
        keyword is Some ==> pos < tokens.len(),
{
    if pos < tokens.len() {
        match &tokens[pos] {
            Token::Keyword(keyword) => Some(*keyword),
            _ => None,
        }
    } else {
        None
    }
}

/// Recognizes the setting whose keyword stands at `pos`.
fn recognize_setting(tokens: &Vec<Token>, pos: usize, setting: Setting) -> (r: Result<
    (Field, usize),
    GrammarError,
>)
    requires
        pos < tokens.len(),
    ensures
        field_outcome(r) == setting_at(tokens.deep_view(), pos as int, setting),
{
    if !punct_at(tokens, pos + 1, '=') {
        return Err(GrammarError { at: pos + 1, expected: Expected::Equals });
    }
    match text_at(tokens, pos + 2) {
        Some(value) => Ok((Field::Setting(setting, value), pos + 3)),
        None => Err(GrammarError { at: pos + 2, expected: Expected::StringLiteral }),
    }
}

/// Recognizes the rest of a path list, `start` being the index of the token
/// behind its opening bracket.
fn recognize_list(tokens: &Vec<Token>, start: usize) -> (r: Result<(Vec<String>, usize), GrammarError>)
    requires
        start <= tokens.len(),
    ensures
        list_outcome(r) == list_from(tokens.deep_view(), start as int),
{
    let ghost all = tokens.deep_view();
    let mut paths: Vec<String> = Vec::new();
    let mut pos: usize = start;
    assert(with_front(paths.deep_view(), list_from(all, pos as int)) == list_from(all, start as int)) by {
        let rest = list_from(all, pos as int);
        if rest is Ok {
            assert(paths.deep_view() + rest.unwrap().0 =~= rest.unwrap().0);
        }
    }
    loop
        invariant
            all == tokens.deep_view(),
            pos <= tokens.len(),
            list_from(all, start as int) == with_front(paths.deep_view(), list_from(all, pos as int)),
        decreases tokens.len() - pos,
    {
        if close_at(tokens, pos, Delimiter::Bracket) {
            assert(paths.deep_view() + Seq::<Seq<char>>::empty() =~= paths.deep_view());
            return Ok((paths, pos + 1));
        }
        match text_at(tokens, pos) {
            None => {
                return Err(GrammarError { at: pos, expected: Expected::StringLiteral });
            },
            Some(path) => {
                let ghost before = paths.deep_view();
                if close_at(tokens, pos + 1, Delimiter::Bracket) {
                    paths.push(path);
                    assert(paths.deep_view() =~= before + seq![path@]);
                    return Ok((paths, pos + 2));
                } else if punct_at(tokens, pos + 1, ',') {
                    paths.push(path);
                    proof {
                        assert(paths.deep_view() =~= before + seq![path@]);
                        let rest = list_from(all, pos + 2);
                        if rest is Ok {
                            assert(before + (seq![path@] + rest.unwrap().0) =~= paths.deep_view()
                                + rest.unwrap().0);
                        }
                    }
                    pos = pos + 2;
                } else {
                    return Err(GrammarError { at: pos + 1, expected: Expected::Comma });
                }
            },
        }
    }
}

/// Recognizes the field that starts at `pos`; with it comes the index of the
/// token behind it.
pub fn recognize_field(tokens: &Vec<Token>, pos: usize) -> (r: Result<(Field, usize), GrammarError>)
    ensures
        field_outcome(r) == field_at(tokens.deep_view(), pos as int),
{
    match word_at(tokens, pos) {
        None => Err(GrammarError { at: pos, expected: Expected::Field }),
        Some(Keyword::Flag(flag)) => Ok((Field::Flag(flag), pos + 1)),
        Some(Keyword::Setting(setting)) => recognize_setting(tokens, pos, setting),
        Some(Keyword::Src) => {
            if !open_at(tokens, pos + 1, Delimiter::Bracket) {
                return Err(GrammarError { at: pos + 1, expected: Expected::OpenBracket });
            }
            let name = match text_at(tokens, pos + 2) {
                Some(name) => name,
                None => {
                    return Err(GrammarError { at: pos + 2, expected: Expected::StringLiteral });
                },
            };
            if !close_at(tokens, pos + 3, Delimiter::Bracket) {
                return Err(GrammarError { at: pos + 3, expected: Expected::CloseBracket });
            }
            if !punct_at(tokens, pos + 4, ':') {
                return Err(GrammarError { at: pos + 4, expected: Expected::Colon });
            }
            match text_at(tokens, pos + 5) {
                Some(text) => Ok((Field::Inline { name, text, at: pos + 5 }, pos + 6)),
                None => Err(GrammarError { at: pos + 5, expected: Expected::StringLiteral }),
            }
        },
        Some(Keyword::Paths) => {
            if !punct_at(tokens, pos + 1, ':') {
                return Err(GrammarError { at: pos + 1, expected: Expected::Colon });
            }
            if !open_at(tokens, pos + 2, Delimiter::Bracket) {
                return Err(GrammarError { at: pos + 2, expected: Expected::OpenBracket });
            }
            match recognize_list(tokens, pos + 3) {
                Ok((paths, end)) => Ok((Field::Paths { paths, at: pos + 2 }, end)),
                Err(e) => Err(e),
            }
        },
    }
}

/// Recognizes the field list of a structured invocation, from behind its
/// opening brace.
fn recognize_fields(tokens: &Vec<Token>) -> (r: (Vec<Field>, Ending))
    requires
        tokens.len() >= 1,
    ensures
        (r.0.deep_view(), r.1) == fields_from(tokens.deep_view(), 1, false),
{
    let ghost all = tokens.deep_view();
    let mut fields: Vec<Field> = Vec::new();
    let mut pos: usize = 1;
    let mut after_field = false;
    assert(fields.deep_view() + fields_from(all, 1, false).0 =~= fields_from(all, 1, false).0);
    loop
        invariant
            all == tokens.deep_view(),
            1 <= pos <= tokens.len(),
            fields_from(all, 1, false) == (
                fields.deep_view() + fields_from(all, pos as int, after_field).0,
                fields_from(all, pos as int, after_field).1,
            ),
        decreases tokens.len() - pos,
    {
        if close_at(tokens, pos, Delimiter::Brace) {
            assert(fields.deep_view() + Seq::<FieldView>::empty() =~= fields.deep_view());
            let ending = if pos + 1 == tokens.len() {
                Ending::Complete
            } else {
                Ending::Trailing(pos + 1)
            };
            return (fields, ending);
        }
        if after_field {
            if punct_at(tokens, pos, ',') {
                pos = pos + 1;
                after_field = false;
            } else {
                assert(fields.deep_view() + Seq::<FieldView>::empty() =~= fields.deep_view());
                return (fields, Ending::Malformed(GrammarError { at: pos, expected: Expected::Comma }));
            }
        } else {
            match recognize_field(tokens, pos) {
                Err(e) => {
                    assert(fields.deep_view() + Seq::<FieldView>::empty() =~= fields.deep_view());
                    return (fields, Ending::Malformed(e));
                },
                Ok((field, next)) => {
                    let ghost before = fields.deep_view();
                    proof {
                        lemma_field_advances(all, pos as int);
                    }
                    fields.push(field);
                    proof {
                        assert(fields.deep_view() =~= before + seq![field@]);
                        let rest = fields_from(all, next as int, true);
                        assert(before + (seq![field@] + rest.0) =~= fields.deep_view() + rest.0);
                    }
                    pos = next;
                    after_field = true;
                },
            }
        }
    }
}

/// Recognizes a flat invocation.
fn recognize_flat(tokens: &Vec<Token>) -> (r: Result<(Vec<Field>, Vec<String>), GrammarError>)
    ensures
        flat_outcome(r) == flat_from(tokens.deep_view(), 0),
{
    let ghost all = tokens.deep_view();
    let mut settings: Vec<Field> = Vec::new();
    let mut paths: Vec<String> = Vec::new();
    let mut pos: usize = 0;
    proof {
        let rest = flat_from(all, 0);
        if rest is Ok {
            assert(settings.deep_view() + rest.unwrap().0 =~= rest.unwrap().0);
            assert(paths.deep_view() + rest.unwrap().1 =~= rest.unwrap().1);
        }
    }
    while pos < tokens.len()
        invariant
            all == tokens.deep_view(),
            pos <= tokens.len(),
            flat_from(all, 0) == flat_with_front(
                settings.deep_view(),
                paths.deep_view(),
                flat_from(all, pos as int),
            ),
        decreases tokens.len() - pos,
    {
        let ghost settings_before = settings.deep_view();
        let ghost paths_before = paths.deep_view();
        match word_at(tokens, pos) {
            Some(Keyword::Setting(setting)) => {
                match recognize_setting(tokens, pos, setting) {
                    Err(e) => {
                        return Err(e);
                    },
                    Ok((field, next)) => {
                        settings.push(field);
                        proof {
                            assert(settings.deep_view() =~= settings_before + seq![field@]);
                            let rest = flat_from(all, pos + 3);
                            if rest is Ok {
                                assert(settings_before + (seq![field@] + rest.unwrap().0)
                                    =~= settings.deep_view() + rest.unwrap().0);
                                assert(paths_before + (Seq::<Seq<char>>::empty() + rest.unwrap().1)
                                    =~= paths.deep_view() + rest.unwrap().1);
                            }
                        }
                        pos = next;
                    },
                }
            },
            _ => {
                match text_at(tokens, pos) {
                    None => {
                        return Err(GrammarError { at: pos, expected: Expected::StringLiteral });
                    },
                    Some(path) => {
                        paths.push(path);
                        proof {
                            assert(paths.deep_view() =~= paths_before + seq![path@]);
                            let rest = flat_from(all, pos + 1);
                            if rest is Ok {
                                assert(settings_before + (Seq::<FieldView>::empty() + rest.unwrap().0)
                                    =~= settings.deep_view() + rest.unwrap().0);
                                assert(paths_before + (seq![path@] + rest.unwrap().1)
                                    =~= paths.deep_view() + rest.unwrap().1);
                            }
                        }
                        pos = pos + 1;
                    },
                }
            },
        }
    }
    proof {
        assert(settings.deep_view() + Seq::<FieldView>::empty() =~= settings.deep_view());
        assert(paths.deep_view() + Seq::<Seq<char>>::empty() =~= paths.deep_view());
    }
    Ok((settings, paths))
}

/// Recognizes an invocation: tells its form by the first token and reads it
/// with the recognizer of that form.
pub fn recognize(tokens: &Vec<Token>) -> (r: Result<ResolutionInput, GrammarError>)
    ensures
        input_outcome(r) == recognized(tokens.deep_view()),
{
    if open_at(tokens, 0, Delimiter::Brace) {
        let (fields, ending) = recognize_fields(tokens);
        Ok(ResolutionInput::Structured { fields, ending })
    } else {
        match recognize_flat(tokens) {
            Ok((settings, paths)) => Ok(ResolutionInput::Flat { settings, paths }),
            Err(e) => Err(e),
        }
    }
}

} // verus!
