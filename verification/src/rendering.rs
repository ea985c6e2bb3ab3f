//! The grammar read the other way: from fields to the tokens that spell them,
//! and the proof that the recognizer reads every such spelling back.

use vstd::prelude::*;
use crate::grammar::{
    field_at, fields_from, flat_from, list_from, recognized, Ending, FieldView, GrammarError,
    ResolutionInputView,
};
use crate::token::{Delimiter, Keyword, TokenView};

verus! {

/// The items of a path list, commas between them.
pub open spec fn spelled_list(paths: Seq<Seq<char>>) -> Seq<TokenView>
    decreases paths.len(),
{
    if paths.len() == 0 {
        Seq::empty()
    } else if paths.len() == 1 {
        seq![TokenView::Str(paths[0])]
    } else {
        seq![TokenView::Str(paths[0]), TokenView::Punct(',')] + spelled_list(paths.drop_first())
    }
}

/// The tokens that spell one field.
pub open spec fn spelled_field(field: FieldView) -> Seq<TokenView> {
    match field {
        FieldView::Inline { name, text, .. } => seq![
            TokenView::Keyword(Keyword::Src),
            TokenView::Open(Delimiter::Bracket),
            TokenView::Str(name),
            TokenView::Close(Delimiter::Bracket),
            TokenView::Punct(':'),
            TokenView::Str(text),
        ],
        FieldView::Paths { paths, .. } => seq![
            TokenView::Keyword(Keyword::Paths),
            TokenView::Punct(':'),
            TokenView::Open(Delimiter::Bracket),
        ] + spelled_list(paths) + seq![TokenView::Close(Delimiter::Bracket)],
        FieldView::Flag(flag) => seq![TokenView::Keyword(Keyword::Flag(flag))],
        FieldView::Setting(setting, value) => seq![
            TokenView::Keyword(Keyword::Setting(setting)),
            TokenView::Punct('='),
            TokenView::Str(value),
        ],
    }
}

/// The tokens that spell a list of fields, commas between them.
pub open spec fn spelled_fields(fields: Seq<FieldView>) -> Seq<TokenView>
    decreases fields.len(),
{
    if fields.len() == 0 {
        Seq::empty()
    } else if fields.len() == 1 {
        spelled_field(fields[0])
    } else {
        spelled_field(fields[0]) + seq![TokenView::Punct(',')] + spelled_fields(fields.drop_first())
    }
}

/// The structured invocation that spells `fields`.
pub open spec fn spelled(fields: Seq<FieldView>) -> Seq<TokenView> {
    seq![TokenView::Open(Delimiter::Brace)] + spelled_fields(fields) + seq![
        TokenView::Close(Delimiter::Brace),
    ]
}

/// A field with its place in the tokens: `start` is the index of its first
/// token.
pub open spec fn placed(field: FieldView, start: int) -> FieldView {
    match field {
        FieldView::Inline { name, text, .. } => FieldView::Inline { name, text, at: (start + 5) as usize },
        FieldView::Paths { paths, .. } => FieldView::Paths { paths, at: (start + 2) as usize },
        other => other,
    }
}

/// The fields with their places, the first one starting at `start`.
pub open spec fn placed_fields(fields: Seq<FieldView>, start: int) -> Seq<FieldView>
    decreases fields.len(),
{
    if fields.len() == 0 {
        Seq::empty()
    } else {
        seq![placed(fields[0], start)] + placed_fields(
            fields.drop_first(),
            start + spelled_field(fields[0]).len() + 1,
        )
    }
}

/// Whether `part` stands in `tokens` from `pos` on.
pub open spec fn stands_at(tokens: Seq<TokenView>, pos: int, part: Seq<TokenView>) -> bool {
    &&& 0 <= pos
    &&& pos + part.len() <= tokens.len()
    &&& forall|i: int| 0 <= i < part.len() ==> #[trigger] tokens[pos + i] == part[i]
}

proof fn lemma_stands_split(tokens: Seq<TokenView>, pos: int, a: Seq<TokenView>, b: Seq<TokenView>)
    requires
        stands_at(tokens, pos, a + b),
    ensures
        stands_at(tokens, pos, a),
        stands_at(tokens, pos + a.len(), b),
{
    assert forall|i: int| 0 <= i < a.len() implies #[trigger] tokens[pos + i] == a[i] by {
        assert((a + b)[i] == a[i]);
    }
    assert forall|i: int| 0 <= i < b.len() implies #[trigger] tokens[pos + a.len() + i] == b[i] by {
        assert(tokens[pos + (a.len() + i)] == (a + b)[a.len() + i]);
    }
}

proof fn lemma_list_read_back(tokens: Seq<TokenView>, pos: int, paths: Seq<Seq<char>>)
    requires
        stands_at(tokens, pos, spelled_list(paths) + seq![TokenView::Close(Delimiter::Bracket)]),
    ensures
        list_from(tokens, pos) == Ok::<(Seq<Seq<char>>, int), GrammarError>(
            (paths, pos + spelled_list(paths).len() + 1),
        ),
    decreases paths.len(),
{
    let close = seq![TokenView::Close(Delimiter::Bracket)];
    let part = spelled_list(paths) + close;
    if paths.len() == 0 {
        assert(tokens[pos + 0] == part[0]);
        assert(paths =~= Seq::<Seq<char>>::empty());
    } else if paths.len() == 1 {
        assert(tokens[pos + 0] == part[0]);
        assert(tokens[pos + 1] == part[1]);
        assert(paths =~= seq![paths[0]]);
    } else {
        let rest = paths.drop_first();
        let head = seq![TokenView::Str(paths[0]), TokenView::Punct(',')];
        assert(part =~= head + (spelled_list(rest) + close));
        lemma_stands_split(tokens, pos, head, spelled_list(rest) + close);
        assert(tokens[pos + 0] == head[0]);
        assert(tokens[pos + 1] == head[1]);
        lemma_list_read_back(tokens, pos + 2, rest);
        assert(seq![paths[0]] + rest =~= paths);
    }
}

proof fn lemma_field_read_back(tokens: Seq<TokenView>, pos: int, field: FieldView)
    requires
        stands_at(tokens, pos, spelled_field(field)),
    ensures
        field_at(tokens, pos) == Ok::<(FieldView, int), GrammarError>(
            (placed(field, pos), pos + spelled_field(field).len()),
        ),
{
    let part = spelled_field(field);
    assert(tokens[pos + 0] == part[0]);
    match field {
        FieldView::Inline { name, text, at } => {
            assert(tokens[pos + 1] == part[1]);
            assert(tokens[pos + 2] == part[2]);
            assert(tokens[pos + 3] == part[3]);
            assert(tokens[pos + 4] == part[4]);
            assert(tokens[pos + 5] == part[5]);
        },
        FieldView::Paths { paths, at } => {
            let head = seq![
                TokenView::Keyword(Keyword::Paths),
                TokenView::Punct(':'),
                TokenView::Open(Delimiter::Bracket),
            ];
            let tail = spelled_list(paths) + seq![TokenView::Close(Delimiter::Bracket)];
            assert(part =~= head + tail);
            lemma_stands_split(tokens, pos, head, tail);
            assert(tokens[pos + 1] == head[1]);
            assert(tokens[pos + 2] == head[2]);
            lemma_list_read_back(tokens, pos + 3, paths);
        },
        FieldView::Flag(flag) => {},
        FieldView::Setting(setting, value) => {
            assert(tokens[pos + 1] == part[1]);
            assert(tokens[pos + 2] == part[2]);
        },
    }
}

/// No field is spelled with a comma or a closing brace in front.
proof fn lemma_field_starts_with_keyword(field: FieldView)
    ensures
        spelled_field(field).len() > 0,
        spelled_field(field)[0] is Keyword,
{
}

proof fn lemma_fields_read_back(tokens: Seq<TokenView>, pos: int, fields: Seq<FieldView>)
    requires
        stands_at(tokens, pos, spelled_fields(fields) + seq![TokenView::Close(Delimiter::Brace)]),
        tokens.len() == pos + spelled_fields(fields).len() + 1,
    ensures
        fields_from(tokens, pos, false) == (placed_fields(fields, pos), Ending::Complete),
    decreases fields.len(),
{
    let close = seq![TokenView::Close(Delimiter::Brace)];
    let part = spelled_fields(fields) + close;
    if fields.len() == 0 {
        assert(tokens[pos + 0] == part[0]);
    } else {
        let first = spelled_field(fields[0]);
        let rest = fields.drop_first();
        lemma_field_starts_with_keyword(fields[0]);
        if fields.len() == 1 {
            lemma_stands_split(tokens, pos, first, close);
            assert(tokens[pos + 0] == first[0]);
            lemma_field_read_back(tokens, pos, fields[0]);
            let next = pos + first.len();
            assert(tokens[next + 0] == close[0]);
            assert(fields_from(tokens, next, true) == (Seq::<FieldView>::empty(), Ending::Complete));
            assert(placed_fields(rest, next + 1) =~= Seq::<FieldView>::empty());
            assert(seq![placed(fields[0], pos)] + Seq::<FieldView>::empty() =~= placed_fields(fields, pos));
        } else {
            let comma = seq![TokenView::Punct(',')];
            let tail = spelled_fields(rest) + close;
            assert(part =~= first + (comma + tail));
            lemma_stands_split(tokens, pos, first, comma + tail);
            assert(tokens[pos + 0] == first[0]);
            lemma_field_read_back(tokens, pos, fields[0]);
            let next = pos + first.len();
            lemma_stands_split(tokens, next, comma, tail);
            assert(tokens[next + 0] == comma[0]);
            assert(spelled_fields(fields).len() == first.len() + 1 + spelled_fields(rest).len());
            lemma_fields_read_back(tokens, next + 1, rest);
            assert(fields_from(tokens, next, true) == fields_from(tokens, next + 1, false));
        }
    }
}

/// Every list of fields can be spelled, and what spells it is recognized as
/// just these fields, each at its place, and as complete: the recognizer
/// accepts every structured invocation that the grammar derives without a
/// comma behind the last item.
pub proof fn law_spelling_is_read_back(fields: Seq<FieldView>)
    ensures
        recognized(spelled(fields)) == Ok::<ResolutionInputView, GrammarError>(
            ResolutionInputView::Structured {
                fields: placed_fields(fields, 1),
                ending: Ending::Complete,
            },
        ),
{
    let open = seq![TokenView::Open(Delimiter::Brace)];
    let tail = spelled_fields(fields) + seq![TokenView::Close(Delimiter::Brace)];
    let tokens = spelled(fields);
    assert(tokens =~= open + tail);
    assert(tokens[0] == TokenView::Open(Delimiter::Brace));
    assert(stands_at(tokens, 1, tail)) by {
        assert forall|i: int| 0 <= i < tail.len() implies #[trigger] tokens[1 + i] == tail[i] by {
            assert((open + tail)[1 + i] == tail[i]);
        }
    }
    lemma_fields_read_back(tokens, 1, fields);
}

/// The tokens that spell a flat invocation: its settings, then its paths,
/// nothing between them.
pub open spec fn spelled_flat(settings: Seq<FieldView>, paths: Seq<Seq<char>>) -> Seq<TokenView>
    decreases settings.len(), paths.len(),
{
    if settings.len() > 0 {
        spelled_field(settings[0]) + spelled_flat(settings.drop_first(), paths)
    } else if paths.len() > 0 {
        seq![TokenView::Str(paths[0])] + spelled_flat(settings, paths.drop_first())
    } else {
        Seq::empty()
    }
}

proof fn lemma_flat_read_back(
    tokens: Seq<TokenView>,
    pos: int,
    settings: Seq<FieldView>,
    paths: Seq<Seq<char>>,
)
    requires
        forall|i: int| 0 <= i < settings.len() ==> #[trigger] settings[i] is Setting,
        stands_at(tokens, pos, spelled_flat(settings, paths)),
        tokens.len() == pos + spelled_flat(settings, paths).len(),
    ensures
        flat_from(tokens, pos) == Ok::<(Seq<FieldView>, Seq<Seq<char>>), GrammarError>((settings, paths)),
    decreases settings.len(), paths.len(),
{
    if settings.len() > 0 {
        let first = spelled_field(settings[0]);
        let rest = settings.drop_first();
        assert(settings[0] is Setting);
        lemma_stands_split(tokens, pos, first, spelled_flat(rest, paths));
        assert(tokens[pos + 0] == first[0]);
        assert(tokens[pos + 1] == first[1]);
        assert(tokens[pos + 2] == first[2]);
        assert(forall|i: int| 0 <= i < rest.len() ==> #[trigger] rest[i] == settings[i + 1]);
        lemma_flat_read_back(tokens, pos + 3, rest, paths);
        assert(seq![settings[0]] + rest =~= settings);
        assert(Seq::<Seq<char>>::empty() + paths =~= paths);
    } else if paths.len() > 0 {
        let first = seq![TokenView::Str(paths[0])];
        let rest = paths.drop_first();
        lemma_stands_split(tokens, pos, first, spelled_flat(settings, rest));
        assert(tokens[pos + 0] == first[0]);
        lemma_flat_read_back(tokens, pos + 1, settings, rest);
        assert(Seq::<FieldView>::empty() + settings =~= settings);
        assert(seq![paths[0]] + rest =~= paths);
    } else {
        assert(settings =~= Seq::<FieldView>::empty());
        assert(paths =~= Seq::<Seq<char>>::empty());
    }
}

/// Every list of settings and every list of paths can be spelled in the flat
/// form, and what spells them is recognized as just these settings and paths.
pub proof fn law_flat_spelling_is_read_back(settings: Seq<FieldView>, paths: Seq<Seq<char>>)
    requires
        forall|i: int| 0 <= i < settings.len() ==> #[trigger] settings[i] is Setting,
    ensures
        recognized(spelled_flat(settings, paths)) == Ok::<ResolutionInputView, GrammarError>(
            ResolutionInputView::Flat { settings, paths },
        ),
{
    let tokens = spelled_flat(settings, paths);
    if tokens.len() > 0 {
        if settings.len() > 0 {
            assert(settings[0] is Setting);
            assert(tokens[0] == spelled_field(settings[0])[0]);
        } else {
            assert(tokens[0] == TokenView::Str(paths[0]));
        }
    }
    lemma_flat_read_back(tokens, 0, settings, paths);
}

} // verus!
