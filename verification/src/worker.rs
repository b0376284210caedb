//! The voice worker: one owner of the voice models and the microphone that
//! serves `begin`, `ask` and `end` requests one at a time. The models load on the
//! first request that needs them and then stay warm for the rest of the session.
//!
//! The caller performs each action and reports its outcome as an event.

use vstd::prelude::*;
use crate::engine::{Answer, ListenCfg};
use crate::turn::{lemma_turn_progresses, steps_left, turn_expects, turn_step, Action, AskTurn, Event, TurnPhase};

verus! {

/// A request to the worker.
#[derive(Debug, PartialEq, Eq)]
pub enum Command {
    /// Begin the session, speaking the opening line first where one is given.
    Begin { opening: Option<String> },
    /// Speak a question and listen for its answer.
    Ask { question: String, cfg: ListenCfg },
    /// End the session.
    End,
}

/// What the worker is busy with.
#[derive(Debug)]
pub enum WorkerPhase {
    /// Waiting for a request.
    Idle,
    /// Loading the models for a `begin` with this opening line.
    LoadingForBegin { opening: Option<String> },
    /// Speaking the opening line of a `begin`.
    SpeakingOpening,
    /// Loading the models for an `ask` of this question.
    LoadingForAsk { question: String, cfg: ListenCfg },
    /// Running the turn of an `ask`.
    Asking { turn: AskTurn },
}

/// Whether the action answers the request in progress.
pub open spec fn is_reply(a: Action) -> bool {
    a is ReplyBegin || a is ReplyAsk || a is ReplyEnd
}

/// Whether a worker in `phase` waits for the event `ev`.
pub open spec fn worker_expects(phase: WorkerPhase, ev: Event) -> bool {
    match phase {
        WorkerPhase::Idle => false,
        WorkerPhase::LoadingForBegin { .. } => ev is Loaded,
        WorkerPhase::SpeakingOpening => ev is Spoke,
        WorkerPhase::LoadingForAsk { .. } => ev is Loaded,
        WorkerPhase::Asking { turn } => turn_expects(turn.phase(), ev),
    }
}

/// How a `begin` goes on once the models are loaded: the opening line is spoken,
/// or, without one, the request is answered at once with "nothing spoken".
pub open spec fn begin_once_loaded(opening: Option<String>, after: Worker, a: Action) -> bool {
    match opening {
        Some(text) => {
            &&& after.phase() is SpeakingOpening
            &&& a matches Action::Speak(t) && t@ == text@
        },
        None => {
            &&& after.phase() is Idle
            &&& a == Action::ReplyBegin(Ok(false))
        },
    }
}

/// How an `ask` goes on once the models are loaded: its turn starts by speaking the question.
pub open spec fn ask_once_loaded(question: String, cfg: ListenCfg, after: Worker, a: Action) -> bool {
    &&& after.phase() matches WorkerPhase::Asking { turn } && turn.config() == cfg
        && turn.phase() == TurnPhase::Speaking
    &&& a matches Action::Speak(t) && t@ == question@
}

/// The number of outcomes a worker in `phase` still waits for before it answers
/// the request in progress, at most.
pub open spec fn pending_outcomes(phase: WorkerPhase) -> nat {
    match phase {
        WorkerPhase::Idle => 0,
        WorkerPhase::SpeakingOpening => 1,
        WorkerPhase::LoadingForBegin { .. } => 2,
        WorkerPhase::Asking { turn } => steps_left(turn.phase()),
        WorkerPhase::LoadingForAsk { .. } => 4,
    }
}

/// A request taken by an idle worker: a request that needs the voice loads the
/// models first unless they are warm; `end` is acknowledged at once and changes nothing.
pub open spec fn accept_step(before: Worker, cmd: Command, after: Worker, a: Action) -> bool {
    &&& after.models_loaded() == before.models_loaded()
    &&& a is Load ==> !before.models_loaded()
    &&& is_reply(a) <==> after.phase() is Idle
    &&& pending_outcomes(after.phase()) <= 4
    &&& match cmd {
        Command::End => after.phase() is Idle && a == Action::ReplyEnd,
        Command::Begin { opening } => if before.models_loaded() {
            begin_once_loaded(opening, after, a)
        } else {
            after.phase() == (WorkerPhase::LoadingForBegin { opening }) && a == Action::Load
        },
        Command::Ask { question, cfg } => if before.models_loaded() {
            ask_once_loaded(question, cfg, after, a)
        } else {
            after.phase() == (WorkerPhase::LoadingForAsk { question, cfg }) && a
                == Action::Load
        }
    }
}

/// An outcome taken by a busy worker: a failed load answers the request with the
/// error and leaves the models unloaded; a failed opening line answers `begin` with
/// the error; the turn of an `ask` runs to its answer.
pub open spec fn resume_step(before: Worker, ev: Event, after: Worker, a: Action) -> bool {
    &&& before.models_loaded() ==> after.models_loaded()
    &&& !(a is Load)
    &&& is_reply(a) <==> after.phase() is Idle
    &&& pending_outcomes(after.phase()) < pending_outcomes(before.phase())
    &&& match before.phase() {
        WorkerPhase::LoadingForBegin { opening } => match ev {
            Event::Loaded(Ok(_)) => after.models_loaded() && begin_once_loaded(opening, after, a),
            Event::Loaded(Err(e)) => {
                &&& !after.models_loaded()
                &&& after.phase() is Idle
                &&& a matches Action::ReplyBegin(Err(m)) && m@ == e@
            },
            _ => false,
        },
        WorkerPhase::LoadingForAsk { question, cfg } => match ev {
            Event::Loaded(Ok(_)) => after.models_loaded() && ask_once_loaded(question, cfg, after, a),
            Event::Loaded(Err(e)) => {
                &&& !after.models_loaded()
                &&& after.phase() is Idle
                &&& a matches Action::ReplyAsk(ans) && ans.is_error_with(e@)
            },
            _ => false,
        },
        WorkerPhase::SpeakingOpening => {
            &&& after.models_loaded()
            &&& after.phase() is Idle
            &&& match ev {
                Event::Spoke(Ok(_)) => a == Action::ReplyBegin(Ok(true)),
                Event::Spoke(Err(e)) => a matches Action::ReplyBegin(Err(m)) && m@ == e@,
                _ => false,
            }
        },
        WorkerPhase::Asking { turn } => {
            &&& after.models_loaded()
            &&& exists|next: AskTurn| #[trigger]
                turn_step(turn, ev, next, a) && if next.phase() == TurnPhase::Finished {
                    after.phase() is Idle
                } else {
                    after.phase() == (WorkerPhase::Asking { turn: next })
                }
        },
        WorkerPhase::Idle => false
    }
}

/// What a `begin` does, stated outright: on cold models it first asks for a load;
/// with warm models it speaks the opening line where one is given, and otherwise
/// answers at once that nothing was spoken; a spoken opening line is answered as
/// spoken, and a failed one with its error.
pub proof fn lemma_begin_answers(before: Worker, opening: Option<String>, after: Worker, a: Action)
    requires
        accept_step(before, Command::Begin { opening }, after, a),
    ensures
        !before.models_loaded() ==> a == Action::Load,
        before.models_loaded() && opening is None ==> a == Action::ReplyBegin(Ok(false)),
        before.models_loaded() && opening is Some ==> (a matches Action::Speak(t) && t@
            == opening->0@),
{
}

/// A spoken opening line answers `begin` with "spoken"; a failed one with its error.
pub proof fn lemma_opening_outcome(before: Worker, ev: Event, after: Worker, a: Action)
    requires
        before.phase() is SpeakingOpening,
        resume_step(before, ev, after, a),
    ensures
        ev matches Event::Spoke(Ok(_)) ==> a == Action::ReplyBegin(Ok(true)),
        ev matches Event::Spoke(Err(e)) ==> (a matches Action::ReplyBegin(Err(m)) && m@ == e@),
        after.phase() is Idle,
{
}

/// The voice worker's state.
#[derive(Debug)]
pub struct Worker {
    loaded: bool,
    phase: WorkerPhase,
}

impl Worker {
    /// The voice is only used once the models are loaded, and loading is only
    /// ever under way while they are not.
    #[verifier::type_invariant]
    spec fn consistent(self) -> bool {
        match self.phase {
            WorkerPhase::Idle => true,
            WorkerPhase::LoadingForBegin { .. } => !self.loaded,
            WorkerPhase::SpeakingOpening => self.loaded,
            WorkerPhase::LoadingForAsk { .. } => !self.loaded,
            WorkerPhase::Asking { turn } => self.loaded && turn.phase() != TurnPhase::Finished,
        }
    }

    /// Whether the voice models are loaded (warm).
    pub closed spec fn models_loaded(self) -> bool {
        self.loaded
    }

    /// What the worker is busy with.
    pub closed spec fn phase(self) -> WorkerPhase {
        self.phase
    }

    /// A fresh worker: idle, models not loaded yet.
    pub fn new() -> (w: Worker)
        ensures
            !w.models_loaded(),
            w.phase() is Idle,
    {
        Worker { loaded: false, phase: WorkerPhase::Idle }
    }

    /// Whether the voice models are loaded.
    pub fn is_warm(&self) -> (b: bool)
        ensures
            b == self.models_loaded(),
    {
        self.loaded
    }

    /// Whether the worker waits for a request.
    pub fn is_idle(&self) -> (b: bool)
        ensures
            b == self.phase() is Idle,
    {
        match self.phase {
            WorkerPhase::Idle => true,
            _ => false,
        }
    }

    /// Whether the worker waits for the event `ev`.
    pub fn expects(&self, ev: &Event) -> (b: bool)
        ensures
            b == worker_expects(self.phase(), *ev),
    {
        match (&self.phase, ev) {
            (WorkerPhase::LoadingForBegin { .. }, Event::Loaded(_)) => true,
            (WorkerPhase::SpeakingOpening, Event::Spoke(_)) => true,
            (WorkerPhase::LoadingForAsk { .. }, Event::Loaded(_)) => true,
            (WorkerPhase::Asking { turn }, _) => turn.expects(ev),
            _ => false,
        }
    }

    fn begin_loaded(opening: Option<String>) -> (r: (Worker, Action))
        ensures
            r.0.models_loaded(),
            begin_once_loaded(opening, r.0, r.1),
    {
        match opening {
            Some(text) => (Worker { loaded: true, phase: WorkerPhase::SpeakingOpening }, Action::Speak(text)),
            None => (Worker { loaded: true, phase: WorkerPhase::Idle }, Action::ReplyBegin(Ok(false))),
        }
    }

    fn ask_loaded(question: String, cfg: ListenCfg) -> (r: (Worker, Action))
        ensures
            r.0.models_loaded(),
            ask_once_loaded(question, cfg, r.0, r.1),
    {
        let (turn, a) = AskTurn::start(question, cfg);
        (Worker { loaded: true, phase: WorkerPhase::Asking { turn } }, a)
    }

    /// Takes a request. A request that needs the voice loads the models first
    /// unless they are warm; `end` is acknowledged at once and releases nothing
    /// (the models stay warm, the microphone is only held while listening).
    pub fn accept(self, cmd: Command) -> (r: (Worker, Action))
        requires
            self.phase() is Idle,
        ensures
            accept_step(self, cmd, r.0, r.1),
    {
        proof { use_type_invariant(&self); }
        let loaded = self.loaded;
        match cmd {
            Command::End => (self, Action::ReplyEnd),
            Command::Begin { opening } => {
                if loaded {
                    Self::begin_loaded(opening)
                } else {
                    (Worker { loaded: false, phase: WorkerPhase::LoadingForBegin { opening } }, Action::Load)
                }
            },
            Command::Ask { question, cfg } => {
                if loaded {
                    Self::ask_loaded(question, cfg)
                } else {
                    (Worker { loaded: false, phase: WorkerPhase::LoadingForAsk { question, cfg } }, Action::Load)
                }
            },
        }
    }

    /// Takes the outcome of the last action and says what to do next. A failed
    /// load answers the request with the error and leaves the models unloaded, to
    /// be tried again by the next request; a failed opening line answers `begin`
    /// with the error; the turn of an `ask` runs to its answer.
    pub fn resume(self, ev: Event) -> (r: (Worker, Action))
        requires
            worker_expects(self.phase(), ev),
        ensures
            resume_step(self, ev, r.0, r.1),
    {
        proof { use_type_invariant(&self); }
        let Worker { loaded, phase } = self;
        match phase {
            WorkerPhase::LoadingForBegin { opening } => {
                match ev {
                    Event::Loaded(Ok(_)) => Self::begin_loaded(opening),
                    Event::Loaded(Err(e)) => (
                        Worker { loaded: false, phase: WorkerPhase::Idle },
                        Action::ReplyBegin(Err(e)),
                    ),
                    _ => {
                        proof { assert(false); }
                        (Worker { loaded, phase: WorkerPhase::Idle }, Action::ReplyEnd)
                    },
                }
            },
            WorkerPhase::LoadingForAsk { question, cfg } => {
                match ev {
                    Event::Loaded(Ok(_)) => Self::ask_loaded(question, cfg),
                    Event::Loaded(Err(e)) => (
                        Worker { loaded: false, phase: WorkerPhase::Idle },
                        Action::ReplyAsk(Answer::error(e)),
                    ),
                    _ => {
                        proof { assert(false); }
                        (Worker { loaded, phase: WorkerPhase::Idle }, Action::ReplyEnd)
                    },
                }
            },
            WorkerPhase::SpeakingOpening => {
                match ev {
                    Event::Spoke(Ok(_)) => (
                        Worker { loaded: true, phase: WorkerPhase::Idle },
                        Action::ReplyBegin(Ok(true)),
                    ),
                    Event::Spoke(Err(e)) => (
                        Worker { loaded: true, phase: WorkerPhase::Idle },
                        Action::ReplyBegin(Err(e)),
                    ),
                    _ => {
                        proof { assert(false); }
                        (Worker { loaded, phase: WorkerPhase::Idle }, Action::ReplyEnd)
                    },
                }
            },
            WorkerPhase::Asking { turn } => {
                let ghost before = turn;
                let mut turn = turn;
                let a = turn.resume(ev);
                proof { lemma_turn_progresses(before, ev, turn, a); }
                if turn.is_finished() {
                    (Worker { loaded: true, phase: WorkerPhase::Idle }, a)
                } else {
                    (Worker { loaded: true, phase: WorkerPhase::Asking { turn } }, a)
                }
            },
            WorkerPhase::Idle => {
                proof { assert(false); }
                (Worker { loaded, phase: WorkerPhase::Idle }, Action::ReplyEnd)
            },
        }
    }
}

} // verus!

verus! {

/// One input to the worker: a request, or the outcome of the last action.
pub enum Input {
    Request(Command),
    Outcome(Event),
}

/// One step of the worker: an idle worker takes a request, a busy one takes the
/// outcome it waits for.
pub open spec fn worker_step(before: Worker, input: Input, after: Worker, a: Action) -> bool {
    match input {
        Input::Request(cmd) => before.phase() is Idle && accept_step(before, cmd, after, a),
        Input::Outcome(ev) => worker_expects(before.phase(), ev) && resume_step(before, ev, after, a),
    }
}

/// Step `i` of a run: `ws[i]` takes `inputs[i]`, becomes `ws[i + 1]` and asks for `actions[i]`.
pub open spec fn step_at(ws: Seq<Worker>, inputs: Seq<Input>, actions: Seq<Action>, i: int) -> bool {
    worker_step(ws[i], inputs[i], ws[i + 1], actions[i])
}

/// A run of the worker from an idle state: the workers it passes through, the
/// inputs it takes and the actions it asks for.
pub open spec fn is_run(ws: Seq<Worker>, inputs: Seq<Input>, actions: Seq<Action>) -> bool {
    &&& ws.len() == inputs.len() + 1
    &&& actions.len() == inputs.len()
    &&& ws[0].phase() is Idle
    &&& forall|i: int| 0 <= i < inputs.len() ==> #[trigger] step_at(ws, inputs, actions, i)
}

/// Whether the input reports a successful load of the models.
pub open spec fn is_load_success(input: Input) -> bool {
    input matches Input::Outcome(Event::Loaded(Ok(_)))
}

/// Whether a worker that is loading the models is cold.
pub open spec fn cold_while_loading(w: Worker) -> bool {
    (w.phase() is LoadingForBegin || w.phase() is LoadingForAsk) ==> !w.models_loaded()
}

proof fn lemma_run_cold_while_loading(ws: Seq<Worker>, inputs: Seq<Input>, actions: Seq<Action>, k: int)
    requires
        is_run(ws, inputs, actions),
        0 <= k < ws.len(),
    ensures
        cold_while_loading(ws[k]),
    decreases k,
{
    if k > 0 {
        lemma_run_cold_while_loading(ws, inputs, actions, k - 1);
        assert(step_at(ws, inputs, actions, k - 1));
    }
}

proof fn lemma_run_stays_warm(ws: Seq<Worker>, inputs: Seq<Input>, actions: Seq<Action>, i: int, j: int)
    requires
        is_run(ws, inputs, actions),
        0 <= i <= j < ws.len(),
        ws[i].models_loaded(),
    ensures
        ws[j].models_loaded(),
    decreases j - i,
{
    if j > i {
        lemma_run_stays_warm(ws, inputs, actions, i, j - 1);
        assert(step_at(ws, inputs, actions, j - 1));
    }
}

/// Over any run, the models are loaded at most once: warmth is never lost, a load
/// is only asked for while the models are cold, at most one load succeeds, and once
/// one has succeeded no load is asked for again (every later request uses the
/// models already loaded).
pub proof fn lemma_models_load_at_most_once(ws: Seq<Worker>, inputs: Seq<Input>, actions: Seq<Action>)
    requires
        is_run(ws, inputs, actions),
    ensures
        forall|i: int, j: int|
            0 <= i <= j < ws.len() && #[trigger] ws[i].models_loaded() ==> #[trigger] ws[j].models_loaded(),
        forall|j: int| 0 <= j < actions.len() && (#[trigger] actions[j]) is Load ==> !ws[j].models_loaded(),
        forall|i: int, j: int|
            0 <= i < j < inputs.len() && is_load_success(#[trigger] inputs[i]) ==> !is_load_success(
                #[trigger] inputs[j],
            ),
        forall|i: int, j: int|
            0 <= i < j < inputs.len() && is_load_success(#[trigger] inputs[i]) ==> !((#[trigger] actions[j]) is Load),
{
    assert forall|i: int, j: int|
        0 <= i <= j < ws.len() && #[trigger] ws[i].models_loaded() implies #[trigger] ws[j].models_loaded() by {
        lemma_run_stays_warm(ws, inputs, actions, i, j);
    }
    assert forall|j: int| 0 <= j < actions.len() && (#[trigger] actions[j]) is Load implies !ws[j].models_loaded() by {
        assert(step_at(ws, inputs, actions, j));
    }
    assert forall|i: int, j: int|
        0 <= i < j < inputs.len() && is_load_success(#[trigger] inputs[i]) implies !is_load_success(
            #[trigger] inputs[j],
        ) by {
        assert(step_at(ws, inputs, actions, i));
        lemma_run_cold_while_loading(ws, inputs, actions, i);
        assert(ws[i + 1].models_loaded());
        lemma_run_stays_warm(ws, inputs, actions, i + 1, j);
        assert(step_at(ws, inputs, actions, j));
        lemma_run_cold_while_loading(ws, inputs, actions, j);
    }
    assert forall|i: int, j: int|
        0 <= i < j < inputs.len() && is_load_success(#[trigger] inputs[i]) implies !((#[trigger] actions[j]) is Load) by {
        assert(step_at(ws, inputs, actions, i));
        lemma_run_cold_while_loading(ws, inputs, actions, i);
        assert(ws[i + 1].models_loaded());
        lemma_run_stays_warm(ws, inputs, actions, i + 1, j);
        assert(step_at(ws, inputs, actions, j));
    }
}

proof fn lemma_expecting_is_pending(phase: WorkerPhase, ev: Event)
    requires
        worker_expects(phase, ev),
    ensures
        pending_outcomes(phase) >= 1,
{
}

proof fn lemma_request_budget(
    ws: Seq<Worker>,
    inputs: Seq<Input>,
    actions: Seq<Action>,
    i: int,
    m: int,
    k: int,
)
    requires
        is_run(ws, inputs, actions),
        0 <= i < m <= inputs.len(),
        inputs[i] is Request,
        forall|t: int| i < t < m ==> (#[trigger] inputs[t]) is Outcome,
        i + 1 <= k <= m,
    ensures
        pending_outcomes(ws[k].phase()) + (k - i - 1) <= 4,
    decreases k,
{
    if k > i + 1 {
        lemma_request_budget(ws, inputs, actions, i, m, k - 1);
        assert(step_at(ws, inputs, actions, k - 1));
        assert(inputs[k - 1] is Outcome);
    } else {
        assert(step_at(ws, inputs, actions, i));
    }
}

/// Requests are handled one at a time and each gets exactly one reply, within four
/// outcomes: in any run, a request is only taken by an idle worker; no reply is
/// asked for while its outcomes are still coming in; at most four outcomes follow
/// it; and when the next request is taken, the action just before it was the reply.
pub proof fn lemma_one_reply_per_request(
    ws: Seq<Worker>,
    inputs: Seq<Input>,
    actions: Seq<Action>,
    i: int,
    m: int,
)
    requires
        is_run(ws, inputs, actions),
        0 <= i < m <= inputs.len(),
        inputs[i] is Request,
        forall|t: int| i < t < m ==> (#[trigger] inputs[t]) is Outcome,
    ensures
        ws[i].phase() is Idle,
        m - i - 1 <= 4,
        forall|k: int| i <= k < m - 1 ==> !is_reply(#[trigger] actions[k]),
        m < inputs.len() && inputs[m] is Request ==> is_reply(actions[m - 1]),
{
    assert(step_at(ws, inputs, actions, i));
    if m > i + 1 {
        assert(inputs[m - 1] is Outcome);
        assert(step_at(ws, inputs, actions, m - 1));
        if let Input::Outcome(ev) = inputs[m - 1] {
            lemma_expecting_is_pending(ws[m - 1].phase(), ev);
        }
        lemma_request_budget(ws, inputs, actions, i, m, m - 1);
    }
    assert forall|k: int| i <= k < m - 1 implies !is_reply(#[trigger] actions[k]) by {
        assert(step_at(ws, inputs, actions, k));
        assert(inputs[k + 1] is Outcome);
        assert(step_at(ws, inputs, actions, k + 1));
    }
    if m < inputs.len() && inputs[m] is Request {
        assert(step_at(ws, inputs, actions, m));
        assert(step_at(ws, inputs, actions, m - 1));
    }
}

} // verus!
