//! What holds of every invocation.
//!
//! The laws speak of runs: of the session that [`started`] describes and of
//! what [`SessionView::react`] makes of it, event after event.

use vstd::prelude::*;
use crate::error::{ErrorView, Span};
use crate::grammar::{
    flat_from, is_structured, keyword_at, recognized, setting_at, string_at, Ending, FieldView,
    GrammarError, ResolutionInputView,
};
use crate::options::{assembled, law_flag_idempotent};
use crate::package::{markers, packaged, slotted, Direction};
use crate::plan::{
    file_requests, is_source, kept_of, plan_of, planned, requests_for, requests_of, PlanView,
    RequestView,
};
use crate::session::{started, ActionView, EventView, SessionView, Stage};
use crate::token::{Flag, Keyword, TokenView};

verus! {

/// The session and its action after `events`, each reported in turn, `start`
/// being how it began.
pub open spec fn after<I>(
    start: (SessionView<I>, ActionView<I>),
    events: Seq<EventView<I>>,
) -> (SessionView<I>, ActionView<I>)
    decreases events.len(),
{
    if events.len() == 0 {
        start
    } else {
        after(start, events.drop_last()).0.react(events.last())
    }
}

/// Whether `event` reports that `request` was resolved.
pub open spec fn resolves<I>(request: RequestView, event: EventView<I>) -> bool {
    match request {
        RequestView::Text { .. } => event is Parsed,
        RequestView::File { .. } => event is Opened,
    }
}

/// Whether `events` report, one for one and in order, that the first of
/// `requests` were resolved.
pub open spec fn all_resolved<I>(requests: Seq<RequestView>, events: Seq<EventView<I>>) -> bool {
    &&& events.len() <= requests.len()
    &&& forall|i: int| 0 <= i < events.len() ==> resolves(requests[i], #[trigger] events[i])
}

/// The interface that an event brings.
pub open spec fn interface_of<I>(event: EventView<I>) -> I {
    match event {
        EventView::Parsed(interface) => interface,
        EventView::Opened { interface, .. } => interface,
        _ => arbitrary(),
    }
}

/// The interfaces that `events` bring, in the order of the events.
pub open spec fn interfaces_of<I>(events: Seq<EventView<I>>) -> Seq<I> {
    Seq::new(events.len(), |i: int| interface_of(events[i]))
}

/// The files that `events` report as opened, in the order of the events.
pub open spec fn opened_by<I>(events: Seq<EventView<I>>) -> Seq<Seq<char>>
    decreases events.len(),
{
    if events.len() == 0 {
        Seq::empty()
    } else {
        match events.last() {
            EventView::Opened { path, .. } => opened_by(events.drop_last()).push(path),
            _ => opened_by(events.drop_last()),
        }
    }
}

/// A session that holds what `events` brought and is waiting for nothing.
pub open spec fn holding<I>(direction: Direction, plan: PlanView, events: Seq<EventView<I>>) -> SessionView<I> {
    SessionView {
        direction,
        plan,
        gathered: interfaces_of(events),
        files: opened_by(events),
        stage: Stage::Idle,
    }
}

/// Sources are resolved one at a time, in the order of the plan, and nothing
/// else happens meanwhile: after any number of them the session holds their
/// interfaces in that order and the files that were opened in that order, and
/// goes on from there.
pub proof fn law_resolution_in_order<I>(
    tokens: Seq<TokenView>,
    direction: Direction,
    events: Seq<EventView<I>>,
)
    requires
        all_resolved(plan_of(tokens).requests, events),
    ensures
        after(started::<I>(tokens, direction), events) == holding(
            direction,
            plan_of(tokens),
            events,
        ).proceed(),
    decreases events.len(),
{
    let plan = plan_of(tokens);
    if events.len() == 0 {
        assert(interfaces_of(events) =~= Seq::<I>::empty());
        assert(holding(direction, plan, events) == SessionView::<I>::fresh(direction, plan));
    } else {
        let front = events.drop_last();
        let event = events.last();
        assert(all_resolved(plan.requests, front)) by {
            assert forall|i: int| 0 <= i < front.len() implies resolves(plan.requests[i], #[trigger] front[i]) by {
                assert(front[i] == events[i]);
            }
        }
        law_resolution_in_order(tokens, direction, front);
        let before = holding(direction, plan, front).proceed().0;
        assert(before.gathered == interfaces_of(front));
        assert(resolves(plan.requests[front.len() as int], events[front.len() as int]));
        assert(interfaces_of(front).push(interface_of(event)) =~= interfaces_of(events)) by {
            assert forall|i: int| 0 <= i < events.len() implies interfaces_of(front).push(interface_of(event))[i]
                == interfaces_of(events)[i] by {
                if i < front.len() {
                    assert(front[i] == events[i]);
                }
            }
        }
        match event {
            EventView::Parsed(interface) => {
                let next = SessionView { gathered: before.gathered.push(interface), ..before };
                assert(next.proceed() == holding(direction, plan, events).proceed());
            },
            EventView::Opened { interface, path } => {
                let next = SessionView {
                    gathered: before.gathered.push(interface),
                    files: before.files.push(path),
                    ..before
                };
                assert(next.proceed() == holding(direction, plan, events).proceed());
            },
            _ => {},
        }
    }
}

/// A refusal ends the invocation at once, with the parser's message and the
/// span of the source that was refused, whatever was resolved before.
pub proof fn law_refusal_is_final<I>(
    tokens: Seq<TokenView>,
    direction: Direction,
    events: Seq<EventView<I>>,
    message: Seq<char>,
)
    requires
        all_resolved(plan_of(tokens).requests, events),
        events.len() < plan_of(tokens).requests.len(),
    ensures
        after(started::<I>(tokens, direction), events.push(EventView::Rejected(message))).1
            == ActionView::<I>::Abort(
            ErrorView::Resolution { span: plan_of(tokens).requests[events.len() as int].span(), message },
        ),
        after(started::<I>(tokens, direction), events.push(EventView::Rejected(message))).0.stage
            == Stage::Failed,
{
    law_resolution_in_order(tokens, direction, events);
    let longer = events.push(EventView::Rejected(message));
    assert(longer.drop_last() =~= events);
}

/// The answers that are kept are those to the requests of the last field that
/// names interfaces, and these requests are the last ones.
proof fn lemma_last_source_is_kept(fields: Seq<FieldView>, last: int)
    requires
        0 <= last < fields.len(),
        is_source(fields[last]),
        forall|i: int| last < i < fields.len() ==> !is_source(#[trigger] fields[i]),
    ensures
        kept_of(fields) == requests_for(fields[last]).len(),
        kept_of(fields) <= requests_of(fields).len(),
        requests_of(fields).subrange(
            requests_of(fields).len() - kept_of(fields),
            requests_of(fields).len() as int,
        ) == requests_for(fields[last]),
    decreases fields.len(),
{
    let front = fields.drop_last();
    if last == fields.len() - 1 {
        assert(requests_of(fields).subrange(
            requests_of(fields).len() - kept_of(fields),
            requests_of(fields).len() as int,
        ) =~= requests_for(fields[last]));
    } else {
        assert(!is_source(fields[fields.len() - 1]));
        assert(forall|i: int| 0 <= i < front.len() ==> front[i] == fields[i]);
        lemma_last_source_is_kept(front, last);
        assert(requests_of(fields) =~= requests_of(front));
    }
}

/// In a well-formed structured invocation whose last field that names
/// interfaces is a `paths` list with at least one path, one interface is
/// resolved for each listed path, in the order of the list: the last requests
/// are for these paths, and the generator is handed exactly their answers.
pub proof fn law_listed_paths_resolve_in_order<I>(
    tokens: Seq<TokenView>,
    direction: Direction,
    events: Seq<EventView<I>>,
    fields: Seq<FieldView>,
    last: int,
    paths: Seq<Seq<char>>,
    at: usize,
)
    requires
        recognized(tokens) == Ok::<ResolutionInputView, GrammarError>(
            ResolutionInputView::Structured { fields, ending: Ending::Complete },
        ),
        0 <= last < fields.len(),
        fields[last] == (FieldView::Paths { paths, at }),
        paths.len() > 0,
        forall|i: int| last < i < fields.len() ==> !is_source(#[trigger] fields[i]),
        all_resolved(plan_of(tokens).requests, events),
        events.len() == plan_of(tokens).requests.len(),
    ensures
        ({
            let requests = plan_of(tokens).requests;
            let given = interfaces_of(events).subrange(events.len() - paths.len(), events.len() as int);
            &&& paths.len() <= requests.len()
            &&& given.len() == paths.len()
            &&& forall|i: int|
                0 <= i < paths.len() ==> #[trigger] requests[requests.len() - paths.len() + i] == (
                RequestView::File { path: paths[i], span: Span::Token(at) })
            &&& forall|i: int|
                0 <= i < paths.len() ==> #[trigger] given[i] == interface_of(
                    events[events.len() - paths.len() + i],
                )
            &&& after(started::<I>(tokens, direction), events).1 == (ActionView::Generate {
                options: assembled(fields),
                imports: slotted(direction, given).0,
                exports: slotted(direction, given).1,
            })
        }),
{
    let plan = plan_of(tokens);
    let requests = plan.requests;
    lemma_last_source_is_kept(fields, last);
    law_resolution_in_order(tokens, direction, events);
    assert(requests_for(fields[last]) == file_requests(paths, Span::Token(at)));
    assert(plan.kept == paths.len());
    assert forall|i: int| 0 <= i < paths.len() implies #[trigger] requests[requests.len() - paths.len() + i]
        == (RequestView::File { path: paths[i], span: Span::Token(at) }) by {
        let tail = requests.subrange(requests.len() - paths.len(), requests.len() as int);
        assert(tail[i] == requests[requests.len() - paths.len() + i]);
        assert(tail[i] == file_requests(paths, Span::Token(at))[i]);
    }
}

/// No field that names interfaces leaves nothing to ask for.
proof fn lemma_no_source_no_request(fields: Seq<FieldView>)
    requires
        forall|i: int| 0 <= i < fields.len() ==> !is_source(#[trigger] fields[i]),
    ensures
        requests_of(fields).len() == 0,
        kept_of(fields) == 0,
    decreases fields.len(),
{
    if fields.len() > 0 {
        let front = fields.drop_last();
        assert(forall|i: int| 0 <= i < front.len() ==> front[i] == fields[i]);
        lemma_no_source_no_request(front);
        assert(!is_source(fields[fields.len() - 1]));
    }
}

/// A structured invocation whose fields are well formed and of which none
/// names interfaces is refused for want of an interface, before anything is
/// asked of the host.
pub proof fn law_no_source_is_refused<I>(
    tokens: Seq<TokenView>,
    direction: Direction,
    fields: Seq<FieldView>,
    ending: Ending,
)
    requires
        recognized(tokens) == Ok::<ResolutionInputView, GrammarError>(
            ResolutionInputView::Structured { fields, ending },
        ),
        !(ending is Malformed),
        forall|i: int| 0 <= i < fields.len() ==> !is_source(#[trigger] fields[i]),
    ensures
        started::<I>(tokens, direction).1 == ActionView::<I>::Abort(ErrorView::EmptyInterfaceSet),
        started::<I>(tokens, direction).0.stage == Stage::Failed,
{
    lemma_no_source_no_request(fields);
}

/// The string literals of a flat invocation that give no setting its text:
/// those from `pos` on that do not stand behind an `=`, in their order.
pub open spec fn bare_literals(tokens: Seq<TokenView>, pos: int) -> Seq<Seq<char>>
    decreases tokens.len() - pos,
    when 0 <= pos
{
    if pos >= tokens.len() {
        Seq::empty()
    } else if tokens[pos] is Str && !(pos > 0 && tokens[pos - 1] == TokenView::Punct('=')) {
        seq![tokens[pos]->Str_0] + bare_literals(tokens, pos + 1)
    } else {
        bare_literals(tokens, pos + 1)
    }
}

/// In a well-formed flat invocation the paths are its bare literals.
proof fn lemma_flat_paths(tokens: Seq<TokenView>, pos: int)
    requires
        0 <= pos <= tokens.len(),
        pos > 0 ==> tokens[pos - 1] is Str,
        flat_from(tokens, pos) is Ok,
    ensures
        flat_from(tokens, pos).unwrap().1 == bare_literals(tokens, pos),
    decreases tokens.len() - pos,
{
    if pos < tokens.len() {
        match keyword_at(tokens, pos) {
            Some(Keyword::Setting(setting)) => {
                assert(setting_at(tokens, pos, setting) is Ok);
                let rest = flat_from(tokens, pos + 3);
                assert(rest is Ok);
                lemma_flat_paths(tokens, pos + 3);
                assert(bare_literals(tokens, pos) == bare_literals(tokens, pos + 1));
                assert(bare_literals(tokens, pos + 1) == bare_literals(tokens, pos + 2));
                assert(bare_literals(tokens, pos + 2) == bare_literals(tokens, pos + 3));
                assert(Seq::<Seq<char>>::empty() + rest.unwrap().1 =~= rest.unwrap().1);
            },
            _ => {
                assert(string_at(tokens, pos) is Some);
                let rest = flat_from(tokens, pos + 1);
                assert(rest is Ok);
                lemma_flat_paths(tokens, pos + 1);
            },
        }
    }
}

/// In a well-formed flat invocation every string literal that is not the
/// text of a setting is a path to resolve: the requests are for these
/// literals, from left to right, every answer is kept, and once they are all
/// resolved the generator is handed their interfaces in that order, however
/// few they are.
pub proof fn law_flat_literals_resolve_in_order<I>(
    tokens: Seq<TokenView>,
    direction: Direction,
    events: Seq<EventView<I>>,
)
    requires
        !is_structured(tokens),
        flat_from(tokens, 0) is Ok,
        all_resolved(plan_of(tokens).requests, events),
        events.len() == plan_of(tokens).requests.len(),
    ensures
        plan_of(tokens).requests == file_requests(bare_literals(tokens, 0), Span::CallSite),
        after(started::<I>(tokens, direction), events).1 == (ActionView::Generate {
            options: plan_of(tokens).options,
            imports: slotted(direction, interfaces_of(events)).0,
            exports: slotted(direction, interfaces_of(events)).1,
        }),
{
    lemma_flat_paths(tokens, 0);
    law_resolution_in_order(tokens, direction, events);
    let session = holding(direction, plan_of(tokens), events);
    assert(session.selected() =~= interfaces_of(events));
}

/// An invocation ends exactly once, with its expansion or with an error, and
/// nothing is tried again: the session is done where it hands out the
/// expansion, has failed where it hands out an error, and from then on expects
/// no event.
pub proof fn law_every_failure_is_final<I>(session: SessionView<I>, event: EventView<I>)
    requires
        session.expects(event),
    ensures
        session.react(event).1 is Finish <==> session.react(event).0.stage is Done,
        session.react(event).1 is Abort <==> session.react(event).0.stage is Failed,
        session.react(event).1 is Resolve <==> session.react(event).0.stage is Resolving,
        session.react(event).1 is Generate <==> session.react(event).0.stage is Generating,
        forall|later: EventView<I>|
            session.react(event).0.stage is Done || session.react(event).0.stage is Failed
                ==> !(#[trigger] session.react(event).0.expects(later)),
{
}

/// The same holds of how an invocation begins.
pub proof fn law_start_asks_or_ends<I>(tokens: Seq<TokenView>, direction: Direction)
    ensures
        !(started::<I>(tokens, direction).1 is Finish),
        started::<I>(tokens, direction).1 is Abort <==> started::<I>(tokens, direction).0.stage is Failed,
        started::<I>(tokens, direction).1 is Resolve <==> started::<I>(tokens, direction).0.stage
            is Resolving,
        started::<I>(tokens, direction).1 is Generate <==> started::<I>(tokens, direction).0.stage
            is Generating,
{
}

/// Naming a flag once more changes nothing about a structured invocation:
/// wherever among the fields the second mention is put, the plan is the same.
pub proof fn law_repeated_flag_changes_nothing(
    fields: Seq<FieldView>,
    ending: Ending,
    flag: Flag,
    at: int,
)
    requires
        0 <= at <= fields.len(),
        exists|i: int| 0 <= i < fields.len() && #[trigger] fields[i] == FieldView::Flag(flag),
    ensures
        planned(ResolutionInputView::Structured { fields: fields.insert(at, FieldView::Flag(flag)), ending })
            == planned(ResolutionInputView::Structured { fields, ending }),
{
    law_flag_idempotent(fields, flag, at);
    lemma_flag_asks_for_nothing(fields, flag, at);
}

/// A flag among the fields adds no request and keeps no answer.
proof fn lemma_flag_asks_for_nothing(fields: Seq<FieldView>, flag: Flag, at: int)
    requires
        0 <= at <= fields.len(),
    ensures
        requests_of(fields.insert(at, FieldView::Flag(flag))) == requests_of(fields),
        kept_of(fields.insert(at, FieldView::Flag(flag))) == kept_of(fields),
    decreases fields.len(),
{
    let longer = fields.insert(at, FieldView::Flag(flag));
    if at == fields.len() {
        assert(longer.drop_last() =~= fields);
        assert(requests_of(longer) =~= requests_of(fields));
    } else {
        let front = fields.drop_last();
        assert(longer.drop_last() =~= front.insert(at, FieldView::Flag(flag)));
        assert(longer.last() == fields.last());
        lemma_flag_asks_for_nothing(front, flag, at);
    }
}

/// The files read only grow: what an event leaves behind begins with what
/// was there before.
pub proof fn law_files_read_only_grow<I>(session: SessionView<I>, event: EventView<I>)
    ensures
        session.files.is_prefix_of(session.react(event).0.files),
{
}

/// An interface that was given in place opens no file.
pub proof fn law_inline_source_reads_no_file<I>(session: SessionView<I>, interface: I)
    ensures
        session.react(EventView::Parsed(interface)).0.files == session.files,
{
}

/// The expansion is what the generator wrote, then one marker for each file
/// read, in the order in which the files were opened, and nothing else.
pub proof fn law_one_marker_per_file(outputs: Seq<Seq<u8>>, files: Seq<Seq<char>>)
    requires
        packaged(outputs, files) is Ok,
    ensures
        packaged(outputs, Seq::empty()) matches Ok(generated) && packaged(outputs, files) == Ok::<
            Seq<char>,
            ErrorView,
        >(generated + markers(files)),
{
    assert(markers(Seq::<Seq<char>>::empty()) =~= Seq::<char>::empty());
    let generated = packaged(outputs, Seq::empty())->Ok_0;
    assert(generated =~= vstd::utf8::decode_utf8(outputs[0]));
}

/// The generator never gets interfaces in both of its slots.
pub proof fn law_one_slot_stays_empty<I>(direction: Direction, interfaces: Seq<I>)
    ensures
        slotted(direction, interfaces).0.len() == 0 || slotted(direction, interfaces).1.len() == 0,
        slotted(direction, interfaces).0 + slotted(direction, interfaces).1 == interfaces,
{
    assert(slotted(direction, interfaces).0 + slotted(direction, interfaces).1 =~= interfaces);
}

} // verus!
