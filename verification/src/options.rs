//! The generator's options, and how recognized fields are folded into them.
//!
//! A flag is set once it has been named, however often it is named again. A
//! setting holds the text that was given last.

use vstd::prelude::*;
use crate::grammar::{Field, FieldView};
use crate::token::{Flag, Setting};

verus! {

/// What the generator is told besides the interfaces.
#[derive(Clone, Debug, PartialEq, Eq)]
pub struct GeneratorOptions {
    pub unchecked: bool,
    pub multi_module: bool,
    pub export_macro: Option<String>,
    pub types_path: Option<String>,
    pub reexported_crate_path: Option<String>,
}

/// The mathematical value of [`GeneratorOptions`].
pub struct OptionsView {
    pub unchecked: bool,
    pub multi_module: bool,
    pub export_macro: Option<Seq<char>>,
    pub types_path: Option<Seq<char>>,
    pub reexported_crate_path: Option<Seq<char>>,
}

impl View for GeneratorOptions {
    type V = OptionsView;

    open spec fn view(&self) -> OptionsView {
        OptionsView {
            unchecked: self.unchecked,
            multi_module: self.multi_module,
            export_macro: self.export_macro.deep_view(),
            types_path: self.types_path.deep_view(),
            reexported_crate_path: self.reexported_crate_path.deep_view(),
        }
    }
}

impl OptionsView {
    /// The options before any field: no flag set, no setting given.
    pub open spec fn unset() -> OptionsView {
        OptionsView {
            unchecked: false,
            multi_module: false,
            export_macro: None,
            types_path: None,
            reexported_crate_path: None,
        }
    }

    /// Whether `flag` is set.
    pub open spec fn flag(self, flag: Flag) -> bool {
        match flag {
            Flag::Unchecked => self.unchecked,
            Flag::MultiModule => self.multi_module,
        }
    }

    /// The text that `setting` holds, if it was given one.
    pub open spec fn setting(self, setting: Setting) -> Option<Seq<char>> {
        match setting {
            Setting::ExportMacro => self.export_macro,
            Setting::TypesPath => self.types_path,
            Setting::ReexportedCratePath => self.reexported_crate_path,
        }
    }

    /// The options after one more field. A field that names interfaces leaves
    /// them as they are.
    pub open spec fn applied(self, field: FieldView) -> OptionsView {
        match field {
            FieldView::Flag(Flag::Unchecked) => OptionsView { unchecked: true, ..self },
            FieldView::Flag(Flag::MultiModule) => OptionsView { multi_module: true, ..self },
            FieldView::Setting(Setting::ExportMacro, value) => OptionsView {
                export_macro: Some(value),
                ..self
            },
            FieldView::Setting(Setting::TypesPath, value) => OptionsView {
                types_path: Some(value),
                ..self
            },
            FieldView::Setting(Setting::ReexportedCratePath, value) => OptionsView {
                reexported_crate_path: Some(value),
                ..self
            },
            FieldView::Inline { .. } => self,
            FieldView::Paths { .. } => self,
        }
    }
}

/// The options that a sequence of fields amounts to: each field applied in
/// turn, from the first to the last.
pub open spec fn assembled(fields: Seq<FieldView>) -> OptionsView
    decreases fields.len(),
{
    if fields.len() == 0 {
        OptionsView::unset()
    } else {
        assembled(fields.drop_last()).applied(fields.last())
    }
}

fn duplicate_text(text: &Option<String>) -> (copy: Option<String>)
    ensures
        copy.deep_view() == text.deep_view(),
{
    match text {
        Some(text) => Some(text.clone()),
        None => None,
    }
}

impl GeneratorOptions {
    /// The options before any field.
    pub fn new() -> (options: GeneratorOptions)
        ensures
            options@ == OptionsView::unset(),
    {
        GeneratorOptions {
            unchecked: false,
            multi_module: false,
            export_macro: None,
            types_path: None,
            reexported_crate_path: None,
        }
    }

    /// Other options of the same value.
    pub fn duplicate(&self) -> (copy: GeneratorOptions)
        ensures
            copy@ == self@,
    {
        GeneratorOptions {
            unchecked: self.unchecked,
            multi_module: self.multi_module,
            export_macro: duplicate_text(&self.export_macro),
            types_path: duplicate_text(&self.types_path),
            reexported_crate_path: duplicate_text(&self.reexported_crate_path),
        }
    }

    /// Takes one more field into the options.
    pub fn apply(&mut self, field: &Field)
        ensures
            final(self)@ == old(self)@.applied(field@),
    {
        match field {
            Field::Flag(Flag::Unchecked) => {
                self.unchecked = true;
            },
            Field::Flag(Flag::MultiModule) => {
                self.multi_module = true;
            },
            Field::Setting(Setting::ExportMacro, value) => {
                self.export_macro = Some(value.clone());
            },
            Field::Setting(Setting::TypesPath, value) => {
                self.types_path = Some(value.clone());
            },
            Field::Setting(Setting::ReexportedCratePath, value) => {
                self.reexported_crate_path = Some(value.clone());
            },
            Field::Inline { .. } => {},
            Field::Paths { .. } => {},
        }
    }
}

/// Folds a sequence of fields into options.
pub fn assemble(fields: &Vec<Field>) -> (options: GeneratorOptions)
    ensures
        options@ == assembled(fields.deep_view()),
{
    let mut options = GeneratorOptions::new();
    let mut i: usize = 0;
    while i < fields.len()
        invariant
            i <= fields.len(),
            options@ == assembled(fields.deep_view().take(i as int)),
        decreases fields.len() - i,
    {
        options.apply(&fields[i]);
        proof {
            let all = fields.deep_view();
            assert(all.take(i + 1).drop_last() =~= all.take(i as int));
            assert(all.take(i + 1).last() == fields[i as int]@);
        }
        i = i + 1;
    }
    assert(fields.deep_view().take(i as int) =~= fields.deep_view());
    options
}

/// A flag is set exactly if some field names it.
pub proof fn law_flag_set_iff_named(fields: Seq<FieldView>, flag: Flag)
    ensures
        assembled(fields).flag(flag) <==> exists|i: int|
            0 <= i < fields.len() && #[trigger] fields[i] == FieldView::Flag(flag),
    decreases fields.len(),
{
    if fields.len() > 0 {
        let front = fields.drop_last();
        law_flag_set_iff_named(front, flag);
        if assembled(fields).flag(flag) {
            if fields.last() == FieldView::Flag(flag) {
                assert(fields[fields.len() - 1] == FieldView::Flag(flag));
            } else {
                assert(assembled(front).flag(flag));
                let i = choose|i: int| 0 <= i < front.len() && #[trigger] front[i] == FieldView::Flag(flag);
                assert(fields[i] == FieldView::Flag(flag));
            }
        }
        if exists|i: int| 0 <= i < fields.len() && #[trigger] fields[i] == FieldView::Flag(flag) {
            let i = choose|i: int| 0 <= i < fields.len() && #[trigger] fields[i] == FieldView::Flag(flag);
            if i < front.len() {
                assert(front[i] == FieldView::Flag(flag));
            }
        }
    }
}

/// Naming a flag once more changes nothing: wherever the second mention is
/// put, the options are those of the fields without it.
pub proof fn law_flag_idempotent(fields: Seq<FieldView>, flag: Flag, at: int)
    requires
        0 <= at <= fields.len(),
        exists|i: int| 0 <= i < fields.len() && #[trigger] fields[i] == FieldView::Flag(flag),
    ensures
        assembled(fields.insert(at, FieldView::Flag(flag))) == assembled(fields),
    decreases fields.len(),
{
    let longer = fields.insert(at, FieldView::Flag(flag));
    if at == fields.len() {
        assert(longer.drop_last() =~= fields);
        law_flag_set_iff_named(fields, flag);
    } else {
        let front = fields.drop_last();
        assert(longer.drop_last() =~= front.insert(at, FieldView::Flag(flag)));
        assert(longer.last() == fields.last());
        if exists|i: int| 0 <= i < front.len() && #[trigger] front[i] == FieldView::Flag(flag) {
            law_flag_idempotent(front, flag, at);
        } else {
            let i = choose|i: int| 0 <= i < fields.len() && #[trigger] fields[i] == FieldView::Flag(flag);
            assert(i == fields.len() - 1) by {
                if i < front.len() {
                    assert(front[i] == FieldView::Flag(flag));
                }
            }
            lemma_flag_absorbed(front, flag, at);
        }
    }
}

/// A flag named somewhere within `fields` and once more behind them sets no
/// more than the mention behind them does.
proof fn lemma_flag_absorbed(fields: Seq<FieldView>, flag: Flag, at: int)
    requires
        0 <= at <= fields.len(),
    ensures
        assembled(fields.insert(at, FieldView::Flag(flag))).applied(FieldView::Flag(flag)) == assembled(
            fields,
        ).applied(FieldView::Flag(flag)),
    decreases fields.len(),
{
    let longer = fields.insert(at, FieldView::Flag(flag));
    if at == fields.len() {
        assert(longer.drop_last() =~= fields);
    } else {
        let front = fields.drop_last();
        assert(longer.drop_last() =~= front.insert(at, FieldView::Flag(flag)));
        assert(longer.last() == fields.last());
        lemma_flag_absorbed(front, flag, at);
    }
}

/// A setting holds the text of the field that gave it last: of two fields for
/// one setting the later one wins, whatever stands between and around them.
pub proof fn law_last_setting_wins(fields: Seq<FieldView>, setting: Setting, last: int)
    requires
        0 <= last < fields.len(),
        fields[last] is Setting,
        fields[last]->Setting_0 == setting,
        forall|i: int|
            last < i < fields.len() ==> !(#[trigger] fields[i] is Setting && fields[i]->Setting_0
                == setting),
    ensures
        assembled(fields).setting(setting) == Some(fields[last]->Setting_1),
    decreases fields.len(),
{
    if last < fields.len() - 1 {
        let front = fields.drop_last();
        assert(forall|i: int| 0 <= i < front.len() ==> front[i] == fields[i]);
        law_last_setting_wins(front, setting, last);
        assert(!(fields[fields.len() - 1] is Setting && fields[fields.len() - 1]->Setting_0 == setting));
    }
}

/// A setting that no field gives stays without a text.
pub proof fn law_setting_unset_unless_given(fields: Seq<FieldView>, setting: Setting)
    requires
        forall|i: int|
            0 <= i < fields.len() ==> !(#[trigger] fields[i] is Setting && fields[i]->Setting_0
                == setting),
    ensures
        assembled(fields).setting(setting) is None,
    decreases fields.len(),
{
    if fields.len() > 0 {
        let front = fields.drop_last();
        assert(forall|i: int| 0 <= i < front.len() ==> front[i] == fields[i]);
        law_setting_unset_unless_given(front, setting);
        assert(!(fields[fields.len() - 1] is Setting && fields[fields.len() - 1]->Setting_0 == setting));
    }
}

} // verus!
