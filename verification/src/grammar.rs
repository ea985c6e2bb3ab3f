//! The grammar of an invocation, over tokens.
//!
//! ```text
//! Opts   := '{' (Field (',' Field)* ','?)? '}'
//!         | (StringLiteral | Setting)*
//! Field  := 'src' '[' StringLiteral ']' ':' StringLiteral
//!         | 'paths' ':' '[' (StringLiteral (',' StringLiteral)* ','?)? ']'
//!         | 'unchecked' | 'multi_module'
//!         | Setting
//! Setting := ('export_macro' | 'types_path' | 'reexported_crate_path') '=' StringLiteral
//! ```
//!
//! Which of the two forms an invocation has is decided by its first token: an
//! opening brace starts the structured form, anything else the flat one. A
//! recognizer never goes back over a token.

use vstd::prelude::*;
use crate::token::{Delimiter, Flag, Keyword, Setting, TokenView};

verus! {

/// What the recognizer was looking for where it gave up.
#[derive(Clone, Copy, Debug, PartialEq, Eq, Structural)]
pub enum Expected {
    /// One of the keywords that start a field.
    Field,
    StringLiteral,
    Colon,
    Equals,
    Comma,
    OpenBracket,
    CloseBracket,
    /// The end of the invocation.
    End,
}

/// A token sequence that the grammar does not derive: the index of the token
/// that does not fit (the number of tokens, where the input ended too early)
/// and what was looked for there.
#[derive(Clone, Copy, Debug, PartialEq, Eq, Structural)]
pub struct GrammarError {
    pub at: usize,
    pub expected: Expected,
}

/// One recognized field.
#[derive(Clone, Debug, PartialEq, Eq)]
pub enum Field {
    /// `src[name]: text`: an interface given in place. `at` is the index of the
    /// token that holds the text.
    Inline { name: String, text: String, at: usize },
    /// `paths: [..]`: interfaces to be read from files. `at` is the index of the
    /// list's opening bracket.
    Paths { paths: Vec<String>, at: usize },
    Flag(Flag),
    Setting(Setting, String),
}

/// The mathematical value of a [`Field`].
pub enum FieldView {
    Inline { name: Seq<char>, text: Seq<char>, at: usize },
    Paths { paths: Seq<Seq<char>>, at: usize },
    Flag(Flag),
    Setting(Setting, Seq<char>),
}

impl View for Field {
    type V = FieldView;

    open spec fn view(&self) -> FieldView {
        match self {
            Field::Inline { name, text, at } => FieldView::Inline { name: name@, text: text@, at: *at },
            Field::Paths { paths, at } => FieldView::Paths { paths: paths.deep_view(), at: *at },
            Field::Flag(flag) => FieldView::Flag(*flag),
            Field::Setting(setting, value) => FieldView::Setting(*setting, value@),
        }
    }
}

impl DeepView for Field {
    type V = FieldView;

    open spec fn deep_view(&self) -> FieldView {
        self@
    }
}

/// How the field list of a structured invocation ended.
#[derive(Clone, Copy, Debug, PartialEq, Eq, Structural)]
pub enum Ending {
    /// With the closing brace as the last token.
    Complete,
    /// With the closing brace, and more tokens behind it; the index of the
    /// first of them.
    Trailing(usize),
    /// Before the closing brace, at a token that does not fit.
    Malformed(GrammarError),
}

/// An invocation as far as the grammar is concerned.
#[derive(Clone, Debug, PartialEq, Eq)]
pub enum ResolutionInput {
    /// The brace form: the fields that were recognized, in order, up to the
    /// closing brace or to the first token that does not fit.
    Structured { fields: Vec<Field>, ending: Ending },
    /// The flat form: its settings and its bare path literals, each in order.
    Flat { settings: Vec<Field>, paths: Vec<String> },
}

/// The mathematical value of a [`ResolutionInput`].
pub enum ResolutionInputView {
    Structured { fields: Seq<FieldView>, ending: Ending },
    Flat { settings: Seq<FieldView>, paths: Seq<Seq<char>> },
}

impl View for ResolutionInput {
    type V = ResolutionInputView;

    open spec fn view(&self) -> ResolutionInputView {
        match self {
            ResolutionInput::Structured { fields, ending } => ResolutionInputView::Structured {
                fields: fields.deep_view(),
                ending: *ending,
            },
            ResolutionInput::Flat { settings, paths } => ResolutionInputView::Flat {
                settings: settings.deep_view(),
                paths: paths.deep_view(),
            },
        }
    }
}

/// The error for a token at `pos` that is not what was `expected`.
pub open spec fn fault(pos: int, expected: Expected) -> GrammarError {
    GrammarError { at: pos as usize, expected }
}

/// Whether `token` stands at `pos`.
pub open spec fn holds(tokens: Seq<TokenView>, pos: int, token: TokenView) -> bool {
    0 <= pos < tokens.len() && tokens[pos] == token
}

/// The text of the string literal at `pos`, if one stands there.
pub open spec fn string_at(tokens: Seq<TokenView>, pos: int) -> Option<Seq<char>> {
    if 0 <= pos < tokens.len() {
        match tokens[pos] {
            TokenView::Str(text) => Some(text),
            _ => None,
        }
    } else {
        None
    }
}

/// The keyword at `pos`, if one stands there.
pub open spec fn keyword_at(tokens: Seq<TokenView>, pos: int) -> Option<Keyword> {
    if 0 <= pos < tokens.len() {
        match tokens[pos] {
            TokenView::Keyword(keyword) => Some(keyword),
            _ => None,
        }
    } else {
        None
    }
}

/// The setting whose keyword stands at `pos`: `=` and a string literal have to
/// follow. With the field comes the index of the token behind it.
pub open spec fn setting_at(tokens: Seq<TokenView>, pos: int, setting: Setting) -> Result<
    (FieldView, int),
    GrammarError,
> {
    if !holds(tokens, pos + 1, TokenView::Punct('=')) {
        Err(fault(pos + 1, Expected::Equals))
    } else {
        match string_at(tokens, pos + 2) {
            Some(value) => Ok((FieldView::Setting(setting, value), pos + 3)),
            None => Err(fault(pos + 2, Expected::StringLiteral)),
        }
    }
}

/// `items` put in front of the items of a recognized list.
pub open spec fn with_front(
    items: Seq<Seq<char>>,
    rest: Result<(Seq<Seq<char>>, int), GrammarError>,
) -> Result<(Seq<Seq<char>>, int), GrammarError> {
    match rest {
        Ok((more, end)) => Ok((items + more, end)),
        Err(e) => Err(e),
    }
}

/// The rest of a path list, from a place where an item or the closing bracket
/// may stand: string literals with a comma between two of them and, if one
/// likes, behind the last. With the items comes the index of the token behind
/// the closing bracket.
pub open spec fn list_from(tokens: Seq<TokenView>, pos: int) -> Result<
    (Seq<Seq<char>>, int),
    GrammarError,
>
    decreases tokens.len() - pos,
{
    if holds(tokens, pos, TokenView::Close(Delimiter::Bracket)) {
        Ok((Seq::empty(), pos + 1))
    } else {
        match string_at(tokens, pos) {
            None => Err(fault(pos, Expected::StringLiteral)),
            Some(path) => if holds(tokens, pos + 1, TokenView::Close(Delimiter::Bracket)) {
                Ok((seq![path], pos + 2))
            } else if holds(tokens, pos + 1, TokenView::Punct(',')) {
                with_front(seq![path], list_from(tokens, pos + 2))
            } else {
                Err(fault(pos + 1, Expected::Comma))
            },
        }
    }
}

/// The field that starts at `pos`, with the index of the token behind it.
pub open spec fn field_at(tokens: Seq<TokenView>, pos: int) -> Result<(FieldView, int), GrammarError> {
    match keyword_at(tokens, pos) {
        Some(Keyword::Src) => if !holds(tokens, pos + 1, TokenView::Open(Delimiter::Bracket)) {
            Err(fault(pos + 1, Expected::OpenBracket))
        } else if string_at(tokens, pos + 2) is None {
            Err(fault(pos + 2, Expected::StringLiteral))
        } else if !holds(tokens, pos + 3, TokenView::Close(Delimiter::Bracket)) {
            Err(fault(pos + 3, Expected::CloseBracket))
        } else if !holds(tokens, pos + 4, TokenView::Punct(':')) {
            Err(fault(pos + 4, Expected::Colon))
        } else if string_at(tokens, pos + 5) is None {
            Err(fault(pos + 5, Expected::StringLiteral))
        } else {
            Ok(
                (
                    FieldView::Inline {
                        name: string_at(tokens, pos + 2).unwrap(),
                        text: string_at(tokens, pos + 5).unwrap(),
                        at: (pos + 5) as usize,
                    },
                    pos + 6,
                ),
            )
        },
        Some(Keyword::Paths) => if !holds(tokens, pos + 1, TokenView::Punct(':')) {
            Err(fault(pos + 1, Expected::Colon))
        } else if !holds(tokens, pos + 2, TokenView::Open(Delimiter::Bracket)) {
            Err(fault(pos + 2, Expected::OpenBracket))
        } else {
            match list_from(tokens, pos + 3) {
                Ok((paths, end)) => Ok((FieldView::Paths { paths, at: (pos + 2) as usize }, end)),
                Err(e) => Err(e),
            }
        },
        Some(Keyword::Flag(flag)) => Ok((FieldView::Flag(flag), pos + 1)),
        Some(Keyword::Setting(setting)) => setting_at(tokens, pos, setting),
        None => Err(fault(pos, Expected::Field)),
    }
}

/// A recognized list ends behind where it began, and within the tokens.
pub proof fn lemma_list_advances(tokens: Seq<TokenView>, pos: int)
    requires
        0 <= pos,
        list_from(tokens, pos) is Ok,
    ensures
        pos < list_from(tokens, pos).unwrap().1 <= tokens.len(),
    decreases tokens.len() - pos,
{
    if holds(tokens, pos, TokenView::Close(Delimiter::Bracket)) {
    } else if holds(tokens, pos + 1, TokenView::Punct(',')) {
        lemma_list_advances(tokens, pos + 2);
    }
}

/// A recognized field ends behind where it began, and within the tokens.
pub proof fn lemma_field_advances(tokens: Seq<TokenView>, pos: int)
    requires
        0 <= pos,
        field_at(tokens, pos) is Ok,
    ensures
        pos < field_at(tokens, pos).unwrap().1 <= tokens.len(),
{
    if keyword_at(tokens, pos) == Some(Keyword::Paths) {
        lemma_list_advances(tokens, pos + 3);
    }
}

/// The fields of a structured invocation from `pos` on, and how the list ends.
/// `after_field` says that a field ends just before `pos`, so that a comma or
/// the closing brace has to stand there; otherwise a field or the closing
/// brace has to.
pub open spec fn fields_from(tokens: Seq<TokenView>, pos: int, after_field: bool) -> (
    Seq<FieldView>,
    Ending,
)
    decreases tokens.len() - pos,
    when 0 <= pos
    via fields_from_decreases
{
    if holds(tokens, pos, TokenView::Close(Delimiter::Brace)) {
        (
            Seq::empty(),
            if pos + 1 == tokens.len() {
                Ending::Complete
            } else {
                Ending::Trailing((pos + 1) as usize)
            },
        )
    } else if after_field {
        if holds(tokens, pos, TokenView::Punct(',')) {
            fields_from(tokens, pos + 1, false)
        } else {
            (Seq::empty(), Ending::Malformed(fault(pos, Expected::Comma)))
        }
    } else {
        match field_at(tokens, pos) {
            Err(e) => (Seq::empty(), Ending::Malformed(e)),
            Ok((field, next)) => {
                let rest = fields_from(tokens, next, true);
                (seq![field] + rest.0, rest.1)
            },
        }
    }
}

#[via_fn]
proof fn fields_from_decreases(tokens: Seq<TokenView>, pos: int, after_field: bool) {
    if field_at(tokens, pos) is Ok {
        lemma_field_advances(tokens, pos);
    }
}

/// `settings` and `paths` put in front of what the rest of a flat invocation
/// holds.
pub open spec fn flat_with_front(
    settings: Seq<FieldView>,
    paths: Seq<Seq<char>>,
    rest: Result<(Seq<FieldView>, Seq<Seq<char>>), GrammarError>,
) -> Result<(Seq<FieldView>, Seq<Seq<char>>), GrammarError> {
    match rest {
        Ok((more_settings, more_paths)) => Ok((settings + more_settings, paths + more_paths)),
        Err(e) => Err(e),
    }
}

/// The settings and the bare path literals of a flat invocation from `pos` on.
/// Whatever is not the keyword of a setting has to be a string literal.
pub open spec fn flat_from(tokens: Seq<TokenView>, pos: int) -> Result<
    (Seq<FieldView>, Seq<Seq<char>>),
    GrammarError,
>
    decreases tokens.len() - pos,
    when 0 <= pos
{
    if pos >= tokens.len() {
        Ok((Seq::empty(), Seq::empty()))
    } else {
        match keyword_at(tokens, pos) {
            Some(Keyword::Setting(setting)) => match setting_at(tokens, pos, setting) {
                Ok((field, next)) => flat_with_front(seq![field], Seq::empty(), flat_from(tokens, pos + 3)),
                Err(e) => Err(e),
            },
            _ => match string_at(tokens, pos) {
                Some(path) => flat_with_front(Seq::empty(), seq![path], flat_from(tokens, pos + 1)),
                None => Err(fault(pos, Expected::StringLiteral)),
            },
        }
    }
}

/// Whether an invocation has the structured form.
pub open spec fn is_structured(tokens: Seq<TokenView>) -> bool {
    holds(tokens, 0, TokenView::Open(Delimiter::Brace))
}

/// What the grammar makes of an invocation. The structured form is never
/// refused here: how far it is well formed is part of the result. The flat form
/// is refused at its first token that does not fit.
pub open spec fn recognized(tokens: Seq<TokenView>) -> Result<ResolutionInputView, GrammarError> {
    if is_structured(tokens) {
        let (fields, ending) = fields_from(tokens, 1, false);
        Ok(ResolutionInputView::Structured { fields, ending })
    } else {
        match flat_from(tokens, 0) {
            Ok((settings, paths)) => Ok(ResolutionInputView::Flat { settings, paths }),
            Err(e) => Err(e),
        }
    }
}

} // verus!
