//! One invocation, from its tokens to its expansion.
//!
//! The interface parser, the file system and the generator are the host's. A
//! session decides and the host acts: the session hands out an [`Action`], the
//! host carries it out and comes back with the [`Event`] that tells how it
//! went, until the action is [`Action::Finish`] or [`Action::Abort`].
//!
//! ```text
//! Idle --> Resolving --Parsed, Opened--> Resolving   one request at a time,
//!   |          |                                     in the order of the plan
//!   |          +--Rejected---------------> Failed
//!   |          |  (every request answered)
//!   +----------+--the plan's verdict-----> Failed
//!   +----------+--> Generating --Generated---------> Done | Failed
//!                              +-GeneratorFailed---> Failed
//! ```

use vstd::prelude::*;
use crate::error::{Error, ErrorView, GenerationError};
use crate::options::{GeneratorOptions, OptionsView};
use crate::package::{package, packaged, slots, slotted, Direction};
use crate::plan::{plan_for, plan_of, Plan, PlanView, Request, RequestView};
use crate::token::{Token, TokenView};

verus! {

/// What the host reports back.
#[derive(Debug, PartialEq, Eq)]
pub enum Event<I> {
    /// The text of the pending request was parsed into this interface.
    Parsed(I),
    /// The file of the pending request was read and parsed into this
    /// interface; `path` is the file that was opened.
    Opened { interface: I, path: String },
    /// The parser refused the pending request, with this message.
    Rejected(String),
    /// The generator ran; these are the contents of the files it wrote, in the
    /// order of its file set.
    Generated(Vec<Vec<u8>>),
    /// The generator gave up, with this message.
    GeneratorFailed(String),
}

/// The mathematical value of an [`Event`].
pub enum EventView<I> {
    Parsed(I),
    Opened { interface: I, path: Seq<char> },
    Rejected(Seq<char>),
    Generated(Seq<Seq<u8>>),
    GeneratorFailed(Seq<char>),
}

impl<I> View for Event<I> {
    type V = EventView<I>;

    open spec fn view(&self) -> EventView<I> {
        match self {
            Event::Parsed(interface) => EventView::Parsed(*interface),
            Event::Opened { interface, path } => EventView::Opened { interface: *interface, path: path@ },
            Event::Rejected(message) => EventView::Rejected(message@),
            Event::Generated(outputs) => EventView::Generated(outputs.deep_view()),
            Event::GeneratorFailed(message) => EventView::GeneratorFailed(message@),
        }
    }
}

/// What the host is to do next.
#[derive(Debug, PartialEq, Eq)]
pub enum Action<I> {
    /// Resolve this source and report how it went.
    Resolve(Request),
    /// Run the generator, made from these options, on these interfaces.
    Generate { options: GeneratorOptions, imports: Vec<I>, exports: Vec<I> },
    /// The invocation is done: this is its expansion.
    Finish(String),
    /// The invocation has failed.
    Abort(Error),
}

/// The mathematical value of an [`Action`].
pub enum ActionView<I> {
    Resolve(RequestView),
    Generate { options: OptionsView, imports: Seq<I>, exports: Seq<I> },
    Finish(Seq<char>),
    Abort(ErrorView),
}

impl<I> View for Action<I> {
    type V = ActionView<I>;

    open spec fn view(&self) -> ActionView<I> {
        match self {
            Action::Resolve(request) => ActionView::Resolve(request@),
            Action::Generate { options, imports, exports } => ActionView::Generate {
                options: options@,
                imports: imports@,
                exports: exports@,
            },
            Action::Finish(text) => ActionView::Finish(text@),
            Action::Abort(e) => ActionView::Abort(e@),
        }
    }
}

/// How far an invocation has come.
#[derive(Clone, Copy, Debug, PartialEq, Eq, Structural)]
pub enum Stage {
    /// Nothing has been asked of the host yet.
    Idle,
    /// The answer to a request is awaited.
    Resolving,
    /// The generator's output is awaited.
    Generating,
    /// The expansion has been handed out.
    Done,
    /// The invocation has ended with an error.
    Failed,
}

/// The state of one invocation.
pub struct Session<I> {
    direction: Direction,
    plan: Plan,
    gathered: Vec<I>,
    files: Vec<String>,
    stage: Stage,
}

/// The mathematical value of a [`Session`].
pub struct SessionView<I> {
    pub direction: Direction,
    pub plan: PlanView,
    /// The interfaces resolved so far, one for each request that was answered.
    pub gathered: Seq<I>,
    /// The files read so far, in the order in which they were opened.
    pub files: Seq<Seq<char>>,
    pub stage: Stage,
}

impl<I> View for Session<I> {
    type V = SessionView<I>;

    closed spec fn view(&self) -> SessionView<I> {
        SessionView {
            direction: self.direction,
            plan: self.plan@,
            gathered: self.gathered@,
            files: self.files.deep_view(),
            stage: self.stage,
        }
    }
}

impl<I> SessionView<I> {
    /// A session that has a plan and has done nothing yet.
    pub open spec fn fresh(direction: Direction, plan: PlanView) -> SessionView<I> {
        SessionView {
            direction,
            plan,
            gathered: Seq::empty(),
            files: Seq::empty(),
            stage: Stage::Idle,
        }
    }

    /// While a session is resolving, a request is pending.
    pub open spec fn wf(self) -> bool {
        &&& self.plan.wf()
        &&& self.stage is Resolving ==> self.gathered.len() < self.plan.requests.len()
    }

    /// The request whose answer is awaited.
    pub open spec fn pending(self) -> RequestView {
        self.plan.requests[self.gathered.len() as int]
    }

    /// The interfaces that reach the generator once every request is
    /// answered: the last `kept` of those gathered.
    pub open spec fn selected(self) -> Seq<I> {
        self.gathered.subrange(self.gathered.len() - self.plan.kept, self.gathered.len() as int)
    }

    /// Whether `event` answers what the session is waiting for.
    pub open spec fn expects(self, event: EventView<I>) -> bool {
        match self.stage {
            Stage::Resolving => match event {
                EventView::Parsed(_) => self.pending() is Text,
                EventView::Opened { .. } => self.pending() is File,
                EventView::Rejected(_) => true,
                _ => false,
            },
            Stage::Generating => event is Generated || event is GeneratorFailed,
            _ => false,
        }
    }

    /// What comes next when no answer is awaited. While a request is left, it
    /// is asked for. After the last one the invocation ends with the plan's
    /// verdict, if it has one; else the selected interfaces are handed over to
    /// the generator, in the slot that the direction names.
    pub open spec fn proceed(self) -> (SessionView<I>, ActionView<I>) {
        if self.gathered.len() < self.plan.requests.len() {
            (SessionView { stage: Stage::Resolving, ..self }, ActionView::Resolve(self.pending()))
        } else {
            match self.plan.verdict {
                Some(e) => (SessionView { stage: Stage::Failed, ..self }, ActionView::Abort(e)),
                None => (
                    SessionView { stage: Stage::Generating, gathered: Seq::empty(), ..self },
                    ActionView::Generate {
                        options: self.plan.options,
                        imports: slotted(self.direction, self.selected()).0,
                        exports: slotted(self.direction, self.selected()).1,
                    },
                ),
            }
        }
    }

    /// What comes of an event that the session expects. A refusal ends the
    /// invocation at once, with the span of the request that was refused. A
    /// resolved interface is put behind those gathered, the file that was
    /// opened for it behind the files read. The generator's output is packaged
    /// with one marker for each file read.
    pub open spec fn react(self, event: EventView<I>) -> (SessionView<I>, ActionView<I>) {
        let failed = SessionView { stage: Stage::Failed, ..self };
        match event {
            EventView::Parsed(interface) => SessionView {
                gathered: self.gathered.push(interface),
                ..self
            }.proceed(),
            EventView::Opened { interface, path } => SessionView {
                gathered: self.gathered.push(interface),
                files: self.files.push(path),
                ..self
            }.proceed(),
            EventView::Rejected(message) => (
                failed,
                ActionView::Abort(ErrorView::Resolution { span: self.pending().span(), message }),
            ),
            EventView::Generated(outputs) => match packaged(outputs, self.files) {
                Ok(text) => (SessionView { stage: Stage::Done, ..self }, ActionView::Finish(text)),
                Err(e) => (failed, ActionView::Abort(e)),
            },
            EventView::GeneratorFailed(message) => (
                failed,
                ActionView::Abort(ErrorView::GenerationFailed(message)),
            ),
        }
    }
}

/// How an invocation begins: with the first step of its plan.
pub open spec fn started<I>(tokens: Seq<TokenView>, direction: Direction) -> (
    SessionView<I>,
    ActionView<I>,
) {
    SessionView::<I>::fresh(direction, plan_of(tokens)).proceed()
}

impl<I> Session<I> {
    #[verifier::type_invariant]
    spec fn well_formed(self) -> bool {
        self@.wf()
    }

    /// Begins an invocation: recognizes its tokens, plans it and takes the
    /// plan's first step.
    pub fn start(tokens: &Vec<Token>, direction: Direction) -> (r: (Session<I>, Action<I>))
        ensures
            (r.0@, r.1@) == started::<I>(tokens.deep_view(), direction),
    {
        let files: Vec<String> = Vec::new();
        assert(files.deep_view() =~= Seq::<Seq<char>>::empty());
        Session::proceed(direction, plan_for(tokens), Vec::new(), files)
    }

    /// Whether `event` answers what the session is waiting for.
    pub fn accepts(&self, event: &Event<I>) -> (accepted: bool)
        ensures
            accepted == self@.expects(event@),
    {
        proof {
            use_type_invariant(self);
        }
        match self.stage {
            Stage::Resolving => match event {
                Event::Parsed(_) => match &self.plan.requests[self.gathered.len()] {
                    Request::Text { .. } => true,
                    Request::File { .. } => false,
                },
                Event::Opened { .. } => match &self.plan.requests[self.gathered.len()] {
                    Request::Text { .. } => false,
                    Request::File { .. } => true,
                },
                Event::Rejected(_) => true,
                _ => false,
            },
            Stage::Generating => match event {
                Event::Generated(_) => true,
                Event::GeneratorFailed(_) => true,
                _ => false,
            },
            _ => false,
        }
    }

    /// How far the invocation has come.
    pub fn stage(&self) -> (stage: Stage)
        ensures
            stage == self@.stage,
    {
        self.stage
    }

    /// The files read so far.
    pub fn files_read(&self) -> (files: &Vec<String>)
        ensures
            files.deep_view() == self@.files,
    {
        &self.files
    }

    /// Goes on with what a session holds while no answer is awaited.
    fn proceed(direction: Direction, plan: Plan, gathered: Vec<I>, files: Vec<String>) -> (r: (
        Session<I>,
        Action<I>,
    ))
        requires
            plan@.wf(),
        ensures
            (r.0@, r.1@) == (SessionView {
                direction,
                plan: plan@,
                gathered: gathered@,
                files: files.deep_view(),
                stage: Stage::Idle,
            }).proceed(),
    {
        if gathered.len() < plan.requests.len() {
            let action = Action::Resolve(plan.requests[gathered.len()].duplicate());
            return (Session { direction, plan, gathered, files, stage: Stage::Resolving }, action);
        }
        match &plan.verdict {
            Some(e) => {
                let action = Action::Abort(e.duplicate());
                (Session { direction, plan, gathered, files, stage: Stage::Failed }, action)
            },
            None => {
                let mut gathered = gathered;
                let selected = gathered.split_off(gathered.len() - plan.kept);
                let (imports, exports) = slots(direction, selected);
                let action = Action::Generate { options: plan.options.duplicate(), imports, exports };
                (
                    Session { direction, plan, gathered: Vec::new(), files, stage: Stage::Generating },
                    action,
                )
            },
        }
    }

    /// Takes the host's report of how the last action went, and says what to
    /// do next.
    pub fn step(self, event: Event<I>) -> (r: (Session<I>, Action<I>))
        requires
            self@.expects(event@),
        ensures
            (r.0@, r.1@) == self@.react(event@),
    {
        proof {
            use_type_invariant(&self);
        }
        let Session { direction, plan, gathered, files, stage } = self;
        let mut gathered = gathered;
        let mut files = files;
        match event {
            Event::Parsed(interface) => {
                gathered.push(interface);
                Session::proceed(direction, plan, gathered, files)
            },
            Event::Opened { interface, path } => {
                let ghost before = files.deep_view();
                gathered.push(interface);
                files.push(path);
                assert(files.deep_view() =~= before.push(path@));
                Session::proceed(direction, plan, gathered, files)
            },
            Event::Rejected(message) => {
                let span = plan.requests[gathered.len()].span();
                (
                    Session { direction, plan, gathered, files, stage: Stage::Failed },
                    Action::Abort(Error::Resolution { span, message }),
                )
            },
            Event::Generated(outputs) => match package(outputs, &files) {
                Ok(text) => (
                    Session { direction, plan, gathered, files, stage: Stage::Done },
                    Action::Finish(text),
                ),
                Err(e) => (
                    Session { direction, plan, gathered, files, stage: Stage::Failed },
                    Action::Abort(e),
                ),
            },
            Event::GeneratorFailed(message) => (
                Session { direction, plan, gathered, files, stage: Stage::Failed },
                Action::Abort(Error::Generation(GenerationError::Failed(message))),
            ),
        }
    }
}

/// Begins an invocation whose interfaces the generated code uses.
pub fn import<I>(tokens: &Vec<Token>) -> (r: (Session<I>, Action<I>))
    ensures
        (r.0@, r.1@) == started::<I>(tokens.deep_view(), Direction::Import),
{
    Session::start(tokens, Direction::Import)
}

/// Begins an invocation whose interfaces the generated code provides.
pub fn export<I>(tokens: &Vec<Token>) -> (r: (Session<I>, Action<I>))
    ensures
        (r.0@, r.1@) == started::<I>(tokens.deep_view(), Direction::Export),
{
    Session::start(tokens, Direction::Export)
}

} // verus!
