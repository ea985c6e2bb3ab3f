//! Tokens of the configuration language.
//!
//! The host hands in what it lexed: identifiers by their name, literals by
//! their source text, punctuation and group delimiters as they are. A token
//! keeps of that only what the grammar reads: which keyword an identifier is,
//! if any, and the text that a string literal denotes.

use vstd::prelude::*;
use crate::text::same_text;

verus! {

/// The bracket pair around a group of tokens.
#[derive(Clone, Copy, Debug, PartialEq, Eq, Structural)]
pub enum Delimiter {
    Brace,
    Bracket,
    Parenthesis,
}

/// The options that are switched on by naming them.
#[derive(Clone, Copy, Debug, PartialEq, Eq, Structural)]
pub enum Flag {
    Unchecked,
    MultiModule,
}

/// The options that are given a text with `=`.
#[derive(Clone, Copy, Debug, PartialEq, Eq, Structural)]
pub enum Setting {
    ExportMacro,
    TypesPath,
    ReexportedCratePath,
}

/// The identifiers that the configuration language reserves.
#[derive(Clone, Copy, Debug, PartialEq, Eq, Structural)]
pub enum Keyword {
    Src,
    Paths,
    Flag(Flag),
    Setting(Setting),
}

/// One token of an invocation. A group shows as its opening delimiter, its
/// tokens and its closing delimiter.
#[derive(Clone, Debug, PartialEq, Eq)]
pub enum Token {
    /// An identifier that is a keyword.
    Keyword(Keyword),
    /// Any other identifier.
    Ident,
    /// A string literal, with the text it denotes.
    Str(String),
    /// Any other literal.
    Literal,
    /// One punctuation character.
    Punct(char),
    Open(Delimiter),
    Close(Delimiter),
}

/// The mathematical value of a [`Token`].
pub enum TokenView {
    Keyword(Keyword),
    Ident,
    Str(Seq<char>),
    Literal,
    Punct(char),
    Open(Delimiter),
    Close(Delimiter),
}

impl View for Token {
    type V = TokenView;

    open spec fn view(&self) -> TokenView {
        match self {
            Token::Keyword(k) => TokenView::Keyword(*k),
            Token::Ident => TokenView::Ident,
            Token::Str(s) => TokenView::Str(s@),
            Token::Literal => TokenView::Literal,
            Token::Punct(c) => TokenView::Punct(*c),
            Token::Open(d) => TokenView::Open(*d),
            Token::Close(d) => TokenView::Close(*d),
        }
    }
}

impl DeepView for Token {
    type V = TokenView;

    open spec fn deep_view(&self) -> TokenView {
        self@
    }
}

/// The keyword that an identifier of this name is, if it is one.
pub open spec fn keyword_named(name: Seq<char>) -> Option<Keyword> {
    if name == "src"@ {
        Some(Keyword::Src)
    } else if name == "paths"@ {
        Some(Keyword::Paths)
    } else if name == "unchecked"@ {
        Some(Keyword::Flag(Flag::Unchecked))
    } else if name == "multi_module"@ {
        Some(Keyword::Flag(Flag::MultiModule))
    } else if name == "export_macro"@ {
        Some(Keyword::Setting(Setting::ExportMacro))
    } else if name == "types_path"@ {
        Some(Keyword::Setting(Setting::TypesPath))
    } else if name == "reexported_crate_path"@ {
        Some(Keyword::Setting(Setting::ReexportedCratePath))
    } else {
        None
    }
}

/// The token that an identifier of this name is.
pub open spec fn ident_token(name: Seq<char>) -> TokenView {
    match keyword_named(name) {
        Some(k) => TokenView::Keyword(k),
        None => TokenView::Ident,
    }
}

/// Whether a literal's source text begins as a string literal does: with a
/// double quote, or with the `r` of a raw string.
pub open spec fn opens_like_string(source: Seq<char>) -> bool {
    source.len() > 0 && (source[0] == '"' || source[0] == 'r')
}

/// The text that the string literal with this source text denotes; `None`
/// where the source text is no string literal.
pub uninterp spec fn literal_text(source: Seq<char>) -> Option<Seq<char>>;

/// The token that a literal with this source text is.
pub open spec fn literal_token(source: Seq<char>) -> TokenView {
    if opens_like_string(source) {
        match literal_text(source) {
            Some(text) => TokenView::Str(text),
            None => TokenView::Literal,
        }
    } else {
        TokenView::Literal
    }
}

/// Reads `source` with `syn::parse_str::<syn::LitStr>` and, where that finds
/// exactly one string literal, takes what it denotes with `LitStr::value`.
/// Nothing is proved of the outcome: it is named [`literal_text`]. The
/// precondition keeps out the literals on which syn's `Lit::new` panics: those
/// that it does not know, none of which begins like a string.
#[verifier::external_body]
fn string_literal_value(source: &str) -> (value: Option<String>)
    requires
        opens_like_string(source@),
    ensures
        match value {
            Some(text) => literal_text(source@) == Some(text@),
            None => literal_text(source@) is None,
        },
{
    match syn::parse_str::<syn::LitStr>(source) {
        Ok(literal) => Some(literal.value()),
        Err(_) => None,
    }
}

impl Keyword {
    /// The keyword that an identifier of this name is, if it is one.
    pub fn named(name: &str) -> (keyword: Option<Keyword>)
        ensures
            keyword == keyword_named(name@),
    {
        if same_text(name, "src") {
            Some(Keyword::Src)
        } else if same_text(name, "paths") {
            Some(Keyword::Paths)
        } else if same_text(name, "unchecked") {
            Some(Keyword::Flag(Flag::Unchecked))
        } else if same_text(name, "multi_module") {
            Some(Keyword::Flag(Flag::MultiModule))
        } else if same_text(name, "export_macro") {
            Some(Keyword::Setting(Setting::ExportMacro))
        } else if same_text(name, "types_path") {
            Some(Keyword::Setting(Setting::TypesPath))
        } else if same_text(name, "reexported_crate_path") {
            Some(Keyword::Setting(Setting::ReexportedCratePath))
        } else {
            None
        }
    }
}

impl Token {
    /// The token for an identifier of this name.
    pub fn ident(name: &str) -> (token: Token)
        ensures
            token@ == ident_token(name@),
    {
        match Keyword::named(name) {
            Some(k) => Token::Keyword(k),
            None => Token::Ident,
        }
    }

    /// The token for a literal with this source text.
    pub fn literal(source: &str) -> (token: Token)
        ensures
            token@ == literal_token(source@),
    {
        if source.unicode_len() == 0 {
            return Token::Literal;
        }
        let first = source.get_char(0);
        if first == '"' || first == 'r' {
            match string_literal_value(source) {
                Some(text) => Token::Str(text),
                None => Token::Literal,
            }
        } else {
            Token::Literal
        }
    }
}

} // verus!
