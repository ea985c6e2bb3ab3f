//! From a recognized invocation to what has to be done about it.
//!
//! Nothing that is decided here depends on what the interface parser answers:
//! which sources are asked for and in which order, which answers reach the
//! generator, the options, and the error with which the invocation ends once
//! every source is resolved, if it ends with one.

use vstd::prelude::*;
use crate::error::{Error, ErrorView, Span};
use crate::grammar::{
    recognized, Ending, Expected, Field, FieldView, GrammarError, ResolutionInput,
    ResolutionInputView,
};
use crate::options::{assemble, assembled, GeneratorOptions, OptionsView};
use crate::recognizer::recognize;
use crate::token::{Token, TokenView};

verus! {

/// One interface source that the parser is asked to resolve. The span is that
/// of the error, should the parser refuse.
#[derive(Clone, Debug, PartialEq, Eq)]
pub enum Request {
    /// An interface given in place, to be parsed under `name`.
    Text { name: String, text: String, span: Span },
    /// An interface in a file, to be looked up from the base directory.
    File { path: String, span: Span },
}

/// The mathematical value of a [`Request`].
pub enum RequestView {
    Text { name: Seq<char>, text: Seq<char>, span: Span },
    File { path: Seq<char>, span: Span },
}

impl View for Request {
    type V = RequestView;

    open spec fn view(&self) -> RequestView {
        match self {
            Request::Text { name, text, span } => RequestView::Text {
                name: name@,
                text: text@,
                span: *span,
            },
            Request::File { path, span } => RequestView::File { path: path@, span: *span },
        }
    }
}

impl DeepView for Request {
    type V = RequestView;

    open spec fn deep_view(&self) -> RequestView {
        self@
    }
}

impl Request {
    /// Another request of the same value.
    pub fn duplicate(&self) -> (copy: Request)
        ensures
            copy@ == self@,
    {
        match self {
            Request::Text { name, text, span } => Request::Text {
                name: name.clone(),
                text: text.clone(),
                span: *span,
            },
            Request::File { path, span } => Request::File { path: path.clone(), span: *span },
        }
    }

    /// Where the error belongs, should the parser refuse this request.
    pub fn span(&self) -> (span: Span)
        ensures
            span == self@.span(),
    {
        match self {
            Request::Text { span, .. } => *span,
            Request::File { span, .. } => *span,
        }
    }
}

impl RequestView {
    /// Where the error belongs, should the parser refuse this request.
    pub open spec fn span(self) -> Span {
        match self {
            RequestView::Text { span, .. } => span,
            RequestView::File { span, .. } => span,
        }
    }
}

/// What an invocation asks for.
#[derive(Clone, Debug, PartialEq, Eq)]
pub struct Plan {
    pub options: GeneratorOptions,
    /// The sources to resolve, in this order.
    pub requests: Vec<Request>,
    /// How many of the answers reach the generator: the last `kept` ones.
    pub kept: usize,
    /// The error that ends the invocation once every request is answered.
    pub verdict: Option<Error>,
}

/// The mathematical value of a [`Plan`].
pub struct PlanView {
    pub options: OptionsView,
    pub requests: Seq<RequestView>,
    pub kept: nat,
    pub verdict: Option<ErrorView>,
}

impl View for Plan {
    type V = PlanView;

    open spec fn view(&self) -> PlanView {
        PlanView {
            options: self.options@,
            requests: self.requests.deep_view(),
            kept: self.kept as nat,
            verdict: self.verdict.deep_view(),
        }
    }
}

/// One request for each path, in the order of the paths.
pub open spec fn file_requests(paths: Seq<Seq<char>>, span: Span) -> Seq<RequestView> {
    Seq::new(paths.len(), |i: int| RequestView::File { path: paths[i], span })
}

/// Whether a field names interfaces.
pub open spec fn is_source(field: FieldView) -> bool {
    field is Inline || field is Paths
}

/// The requests that one field stands for.
pub open spec fn requests_for(field: FieldView) -> Seq<RequestView> {
    match field {
        FieldView::Inline { name, text, at } => seq![RequestView::Text { name, text, span: Span::Token(at) }],
        FieldView::Paths { paths, at } => file_requests(paths, Span::Token(at)),
        _ => Seq::empty(),
    }
}

/// The requests of a sequence of fields: those of each field, field after
/// field.
pub open spec fn requests_of(fields: Seq<FieldView>) -> Seq<RequestView>
    decreases fields.len(),
{
    if fields.len() == 0 {
        Seq::empty()
    } else {
        requests_of(fields.drop_last()) + requests_for(fields.last())
    }
}

/// The number of requests of the last field that names interfaces; 0 where no
/// field does. A later such field replaces what an earlier one gave.
pub open spec fn kept_of(fields: Seq<FieldView>) -> nat
    decreases fields.len(),
{
    if fields.len() == 0 {
        0
    } else if is_source(fields.last()) {
        requests_for(fields.last()).len()
    } else {
        kept_of(fields.drop_last())
    }
}

/// The error with which a structured invocation ends after its sources have
/// been resolved: the first token that does not fit, if there is one; else that
/// no interface is left; else a token behind the closing brace.
pub open spec fn verdict_of(fields: Seq<FieldView>, ending: Ending) -> Option<ErrorView> {
    match ending {
        Ending::Malformed(e) => Some(ErrorView::Grammar(e)),
        Ending::Trailing(at) => if kept_of(fields) == 0 {
            Some(ErrorView::EmptyInterfaceSet)
        } else {
            Some(ErrorView::Grammar(GrammarError { at, expected: Expected::End }))
        },
        Ending::Complete => if kept_of(fields) == 0 {
            Some(ErrorView::EmptyInterfaceSet)
        } else {
            None
        },
    }
}

/// The plan for a recognized invocation. In the flat form every bare path is
/// asked for and every answer kept, and no interface at all is in order.
pub open spec fn planned(input: ResolutionInputView) -> PlanView {
    match input {
        ResolutionInputView::Structured { fields, ending } => PlanView {
            options: assembled(fields),
            requests: requests_of(fields),
            kept: kept_of(fields),
            verdict: verdict_of(fields, ending),
        },
        ResolutionInputView::Flat { settings, paths } => PlanView {
            options: assembled(settings),
            requests: file_requests(paths, Span::CallSite),
            kept: paths.len(),
            verdict: None,
        },
    }
}

impl PlanView {
    /// No more answers are kept than there are requests.
    pub open spec fn wf(self) -> bool {
        self.kept <= self.requests.len()
    }
}

/// The answers that are kept are among those that are asked for.
pub proof fn lemma_kept_within_requests(fields: Seq<FieldView>)
    ensures
        kept_of(fields) <= requests_of(fields).len(),
    decreases fields.len(),
{
    if fields.len() > 0 {
        lemma_kept_within_requests(fields.drop_last());
    }
}

/// The plan of any recognized invocation is well formed.
pub proof fn lemma_planned_wf(input: ResolutionInputView)
    ensures
        planned(input).wf(),
{
    match input {
        ResolutionInputView::Structured { fields, ending } => {
            lemma_kept_within_requests(fields);
        },
        ResolutionInputView::Flat { settings, paths } => {},
    }
}

/// Appends one request for each path.
fn push_files(requests: &mut Vec<Request>, paths: &Vec<String>, span: Span)
    ensures
        final(requests).deep_view() == old(requests).deep_view() + file_requests(paths.deep_view(), span),
{
    let ghost before = requests.deep_view();
    let mut i: usize = 0;
    assert(requests.deep_view() =~= before + file_requests(paths.deep_view().take(0), span));
    while i < paths.len()
        invariant
            i <= paths.len(),
            requests.deep_view() == before + file_requests(paths.deep_view().take(i as int), span),
        decreases paths.len() - i,
    {
        let ghost so_far = requests.deep_view();
        requests.push(Request::File { path: paths[i].clone(), span });
        proof {
            let all = paths.deep_view();
            assert(requests.deep_view() =~= so_far.push(RequestView::File { path: all[i as int], span }));
            assert(file_requests(all.take(i + 1), span) =~= file_requests(all.take(i as int), span).push(
                RequestView::File { path: all[i as int], span },
            ));
            assert(requests.deep_view() =~= before + file_requests(all.take(i + 1), span));
        }
        i = i + 1;
    }
    assert(paths.deep_view().take(i as int) =~= paths.deep_view());
}

/// Decides what has to be done about a recognized invocation.
pub fn plan(input: &ResolutionInput) -> (plan: Plan)
    ensures
        plan@ == planned(input@),
        plan@.wf(),
{
    proof {
        lemma_planned_wf(input@);
    }
    match input {
        ResolutionInput::Flat { settings, paths } => {
            let options = assemble(settings);
            let mut requests: Vec<Request> = Vec::new();
            push_files(&mut requests, paths, Span::CallSite);
            assert(requests.deep_view() =~= file_requests(paths.deep_view(), Span::CallSite));
            Plan { options, requests, kept: paths.len(), verdict: None }
        },
        ResolutionInput::Structured { fields, ending } => {
            let ghost all = fields.deep_view();
            let options = assemble(fields);
            let mut requests: Vec<Request> = Vec::new();
            let mut kept: usize = 0;
            let mut i: usize = 0;
            assert(all.take(0) =~= Seq::<FieldView>::empty());
            assert(requests.deep_view() =~= requests_of(all.take(0)));
            while i < fields.len()
                invariant
                    all == fields.deep_view(),
                    i <= fields.len(),
                    requests.deep_view() == requests_of(all.take(i as int)),
                    kept == kept_of(all.take(i as int)),
                decreases fields.len() - i,
            {
                let ghost so_far = requests.deep_view();
                proof {
                    assert(all.take(i + 1).drop_last() =~= all.take(i as int));
                    assert(all.take(i + 1).last() == fields[i as int]@);
                }
                match &fields[i] {
                    Field::Inline { name, text, at } => {
                        requests.push(
                            Request::Text { name: name.clone(), text: text.clone(), span: Span::Token(*at) },
                        );
                        assert(requests.deep_view() =~= so_far + requests_for(fields[i as int]@));
                        kept = 1;
                    },
                    Field::Paths { paths, at } => {
                        push_files(&mut requests, paths, Span::Token(*at));
                        kept = paths.len();
                    },
                    _ => {
                        assert(requests.deep_view() =~= so_far + requests_for(fields[i as int]@));
                    },
                }
                i = i + 1;
            }
            assert(all.take(i as int) =~= all);
            let verdict = match ending {
                Ending::Malformed(e) => Some(Error::Grammar(*e)),
                Ending::Trailing(at) => if kept == 0 {
                    Some(Error::EmptyInterfaceSet)
                } else {
                    Some(Error::Grammar(GrammarError { at: *at, expected: Expected::End }))
                },
                Ending::Complete => if kept == 0 {
                    Some(Error::EmptyInterfaceSet)
                } else {
                    None
                },
            };
            Plan { options, requests, kept, verdict }
        },
    }
}

/// The plan of an invocation that the grammar refuses outright: nothing is
/// asked for, and the invocation ends with the grammar's error.
pub open spec fn refused(e: GrammarError) -> PlanView {
    PlanView {
        options: OptionsView::unset(),
        requests: Seq::empty(),
        kept: 0,
        verdict: Some(ErrorView::Grammar(e)),
    }
}

/// The plan of an invocation, from its tokens.
pub open spec fn plan_of(tokens: Seq<TokenView>) -> PlanView {
    match recognized(tokens) {
        Ok(input) => planned(input),
        Err(e) => refused(e),
    }
}

/// Recognizes an invocation and decides what has to be done about it.
pub fn plan_for(tokens: &Vec<Token>) -> (plan: Plan)
    ensures
        plan@ == plan_of(tokens.deep_view()),
        plan@.wf(),
{
    match recognize(tokens) {
        Ok(input) => self::plan(&input),
        Err(e) => {
            let requests: Vec<Request> = Vec::new();
            assert(requests.deep_view() =~= Seq::<RequestView>::empty());
            Plan { options: GeneratorOptions::new(), requests, kept: 0, verdict: Some(Error::Grammar(e)) }
        },
    }
}

} // verus!
