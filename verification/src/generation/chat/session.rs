use crate::generation::chat::history::{appended, appended_all, message_views, History};
use crate::generation::chat::message::{Message, MessageView, Role};
use crate::generation::chat::response::{sealed, ChatResponse};
use crate::generation::frames::{frame_views, frames_in, left_over, FrameDecoder};
use crate::generation::tools::{
    invocation_views, outcome_message, outcome_text, planned, tool_call_views, Invocation,
    InvocationView, Tool, ToolCall, ToolCallArguments, ToolCallView, ToolInfoView, ToolRegistry,
};
use crate::{OllamaError, OllamaErrorView};
use std::collections::VecDeque;
use vstd::prelude::*;

verus! {

/// Where a session stands. Between `Deciding` and what follows it the
/// session dispatches what the tools reported: with something to deliver it
/// goes on to `Sending`, with nothing to `Terminal`. It does so within the
/// step that ends `Deciding` and never rests in between.
#[derive(Debug, Clone, Copy, PartialEq, Eq, Structural)]
pub enum Phase {
    /// Holds the caller's messages; nothing has been sent.
    Idle,
    /// A request is on its way; the response has not begun.
    Sending,
    /// The response is being read, frame by frame.
    Streaming,
    /// The response has ended and a tool is running.
    Deciding,
    /// Nothing more will be requested, read or run.
    Terminal,
}

/// What the driver reports to the session.
#[derive(Debug)]
pub enum Event {
    /// The caller asks for the session to start.
    Begin,
    /// The backend accepted the request; its response can be read.
    Accepted,
    /// The backend answered with a status other than success.
    Rejected { status: String, body: String },
    /// The driver cannot go on.
    Failed(OllamaError),
    /// The next bytes of the response body.
    Chunk(Vec<u8>),
    /// The frame that was to be decoded holds this response.
    Frame(ChatResponse),
    /// The frame that was to be decoded holds no response.
    Undecodable,
    /// The response ended.
    StreamEnded,
    /// Reading the response failed.
    StreamFailed(String),
    /// The consumer took the item it was handed and asks for the next.
    Resumed,
    /// The tool that was asked for has run.
    ToolFinished(Result<String, String>),
    /// The consumer wants nothing more.
    Cancelled,
}

/// What the session asks the driver to do next.
#[derive(Debug)]
pub enum Action {
    /// Post a request. `messages` is the whole conversation so far, `delta`
    /// the part of it that the backend has not been sent before.
    Send { delta: Vec<Message>, messages: Vec<Message> },
    /// Read the next bytes of the response body and report them as a
    /// `Chunk`, or report that the body ended or failed.
    Read,
    /// Decode this frame and report the `Frame` it holds, or that it is
    /// `Undecodable`.
    Decode(Vec<u8>),
    /// Hand this frame to the consumer, then report `Resumed`.
    Yield(ChatResponse),
    /// Run this tool and report how it went.
    Invoke(Invocation),
    /// Hand this error to the consumer and end the output.
    Fail(OllamaError),
    /// End the output.
    Close,
}

/// Mathematical value of an [`Action`].
pub enum ActionView {
    Send { delta: Seq<MessageView>, messages: Seq<MessageView> },
    Read,
    Decode(Seq<u8>),
    Yield(ChatResponse),
    Invoke(InvocationView),
    Fail(OllamaErrorView),
    Close,
}

impl View for Action {
    type V = ActionView;

    open spec fn view(&self) -> ActionView {
        match self {
            Action::Send { delta, messages } => ActionView::Send {
                delta: message_views(delta@),
                messages: message_views(messages@),
            },
            Action::Read => ActionView::Read,
            Action::Decode(frame) => ActionView::Decode(frame@),
            Action::Yield(frame) => ActionView::Yield(*frame),
            Action::Invoke(invocation) => ActionView::Invoke(invocation@),
            Action::Fail(error) => ActionView::Fail(error@),
            Action::Close => ActionView::Close,
        }
    }
}

/// Mathematical value of a [`Session`].
pub struct SessionView {
    /// Where the session stands.
    pub phase: Phase,
    /// The registered tools, in registration order.
    pub tools: Seq<ToolInfoView>,
    /// The messages that the next request is to deliver.
    pub pending: Seq<MessageView>,
    /// The invocations planned for the response that has just ended.
    pub plan: Seq<InvocationView>,
    /// How many of the planned invocations have finished.
    pub cursor: nat,
    /// Whether the last frame announced the end of the response.
    pub finished: bool,
    /// The bytes received that belong to no complete frame yet.
    pub buffered: Seq<u8>,
    /// The complete frames that wait to be decoded, in arrival order.
    pub frames: Seq<Seq<u8>>,
}

/// One move of a session: where it stands afterwards, what the history holds
/// afterwards, and what the driver is asked to do.
pub struct Step {
    pub session: SessionView,
    pub log: Seq<MessageView>,
    pub action: ActionView,
}

/// The text of the error for an event that the session was not waiting for.
pub open spec fn out_of_order_text() -> Seq<char> {
    "event out of order"@
}

impl SessionView {
    /// The session ends with `action`; the history stays as it is.
    pub open spec fn halt(self, log: Seq<MessageView>, action: ActionView) -> Step {
        Step { session: SessionView { phase: Phase::Terminal, ..self }, log, action }
    }

    /// The session ends with an error, on an event it was not waiting for.
    pub open spec fn out_of_order(self, log: Seq<MessageView>) -> Step {
        self.halt(log, ActionView::Fail(OllamaErrorView::Other(out_of_order_text())))
    }

    /// Decides between another round and the end: with nothing to deliver the
    /// session ends, otherwise what is pending goes out with the whole
    /// conversation.
    pub open spec fn dispatch(self, log: Seq<MessageView>) -> Step {
        if self.pending.len() == 0 {
            self.halt(log, ActionView::Close)
        } else {
            Step {
                session: SessionView { phase: Phase::Sending, pending: Seq::empty(), ..self },
                log,
                action: ActionView::Send { delta: self.pending, messages: log },
            }
        }
    }

    /// The tool calls that the end of a response leaves to be served: those
    /// of the trailing entry of the history.
    pub open spec fn trailing_calls(log: Seq<MessageView>) -> Seq<ToolCallView> {
        if log.len() > 0 {
            log.last().tool_calls
        } else {
            Seq::empty()
        }
    }

    /// The response has ended: plans the invocations that the trailing
    /// entry's tool calls give rise to and asks for the first, or dispatches
    /// at once where there is none.
    pub open spec fn decide(self, log: Seq<MessageView>) -> Step {
        let plan = planned(Self::trailing_calls(log), self.tools);
        let next = SessionView { plan, cursor: 0, pending: Seq::empty(), ..self };
        if plan.len() > 0 {
            Step {
                session: SessionView { phase: Phase::Deciding, ..next },
                log,
                action: ActionView::Invoke(plan[0]),
            }
        } else {
            next.dispatch(log)
        }
    }

    /// A tool has run: its outcome becomes a tool message, which enters the
    /// history at once and is kept for the next request. Then the next
    /// planned invocation is asked for, or the round is dispatched.
    pub open spec fn record(self, log: Seq<MessageView>, outcome: Result<String, String>) -> Step {
        let message = MessageView::fresh(Role::Tool, outcome_text(outcome));
        let cursor: nat = if self.cursor < self.plan.len() {
            self.cursor + 1
        } else {
            self.cursor
        };
        let next = SessionView {
            pending: self.pending.push(message),
            cursor,
            ..self
        };
        if cursor < self.plan.len() {
            Step {
                session: next,
                log: appended(log, message),
                action: ActionView::Invoke(self.plan[cursor as int]),
            }
        } else {
            next.dispatch(appended(log, message))
        }
    }

    /// The session after `bytes` have arrived: they continue what was held
    /// back, the frames that are now complete join the queue, and what is
    /// incomplete at the end is held back in turn.
    pub open spec fn receive(self, bytes: Seq<u8>) -> SessionView {
        SessionView {
            buffered: left_over(self.buffered + bytes),
            frames: self.frames + frames_in(self.buffered + bytes),
            ..self
        }
    }

    /// Goes on with the response: the frame at the head of the queue is to
    /// be decoded, or, where none waits, more bytes are to be read.
    pub open spec fn advance(self, log: Seq<MessageView>) -> Step {
        if self.frames.len() > 0 {
            Step {
                session: SessionView { frames: self.frames.drop_first(), ..self },
                log,
                action: ActionView::Decode(self.frames[0]),
            }
        } else {
            Step { session: self, log, action: ActionView::Read }
        }
    }

    /// The move that `event` causes in a session that stands at `self`, with
    /// `log` as the history.
    pub open spec fn transition(self, log: Seq<MessageView>, event: Event) -> Step {
        if self.phase == Phase::Terminal {
            Step { session: self, log, action: ActionView::Close }
        } else {
            match event {
                Event::Cancelled => self.halt(log, ActionView::Close),
                Event::Failed(error) => self.halt(log, ActionView::Fail(error@)),
                Event::Begin => if self.phase == Phase::Idle {
                    self.dispatch(appended_all(log, self.pending))
                } else {
                    self.out_of_order(log)
                },
                Event::Accepted => if self.phase == Phase::Sending {
                    Step {
                        session: SessionView {
                            phase: Phase::Streaming,
                            finished: false,
                            buffered: Seq::empty(),
                            frames: Seq::empty(),
                            ..self
                        },
                        log,
                        action: ActionView::Read,
                    }
                } else {
                    self.out_of_order(log)
                },
                Event::Chunk(bytes) => if self.phase == Phase::Streaming {
                    self.receive(bytes@).advance(log)
                } else {
                    self.out_of_order(log)
                },
                Event::Undecodable => if self.phase == Phase::Streaming {
                    self.advance(log)
                } else {
                    self.out_of_order(log)
                },
                Event::Rejected { status, body } => if self.phase == Phase::Sending {
                    self.halt(log, ActionView::Fail(OllamaErrorView::rejected(status@, body@)))
                } else {
                    self.out_of_order(log)
                },
                Event::Frame(frame) => if self.phase == Phase::Streaming {
                    Step {
                        session: SessionView { finished: frame.done, ..self },
                        log: appended(log, sealed(frame).message@),
                        action: ActionView::Yield(sealed(frame)),
                    }
                } else {
                    self.out_of_order(log)
                },
                Event::Resumed => if self.phase == Phase::Streaming {
                    if self.finished {
                        self.decide(log)
                    } else {
                        self.advance(log)
                    }
                } else {
                    self.out_of_order(log)
                },
                Event::StreamEnded => if self.phase == Phase::Streaming {
                    self.decide(log)
                } else {
                    self.out_of_order(log)
                },
                Event::StreamFailed(detail) => if self.phase == Phase::Streaming {
                    self.halt(log, ActionView::Fail(OllamaErrorView::stream_failure(detail@)))
                } else {
                    self.out_of_order(log)
                },
                Event::ToolFinished(outcome) => if self.phase == Phase::Deciding {
                    self.record(log, outcome)
                } else {
                    self.out_of_order(log)
                },
            }
        }
    }
}

/// What a session has done after a series of events.
pub struct Run {
    pub session: SessionView,
    pub log: Seq<MessageView>,
    /// The action given in answer to each event, in order.
    pub actions: Seq<ActionView>,
}

/// The session and the history after `events` have been reported one after
/// the other, with the answer to each.
pub open spec fn run(session: SessionView, log: Seq<MessageView>, events: Seq<Event>) -> Run
    decreases events.len(),
{
    if events.len() == 0 {
        Run { session, log, actions: Seq::empty() }
    } else {
        let before = run(session, log, events.drop_last());
        let step = before.session.transition(before.log, events.last());
        Run { session: step.session, log: step.log, actions: before.actions.push(step.action) }
    }
}

/// A session that has ended stays ended: whatever is reported, it asks for
/// nothing but to close, and neither it nor the history changes.
pub proof fn law_terminal_is_final(session: SessionView, log: Seq<MessageView>, events: Seq<Event>)
    requires
        session.phase == Phase::Terminal,
    ensures
        run(session, log, events).session == session,
        run(session, log, events).log == log,
        run(session, log, events).actions.len() == events.len(),
        forall|i: int|
            0 <= i < events.len() ==> #[trigger] run(session, log, events).actions[i]
                == ActionView::Close,
    decreases events.len(),
{
    if events.len() > 0 {
        law_terminal_is_final(session, log, events.drop_last());
    }
}

/// Cancellation: once the consumer has cancelled, in whatever phase, the
/// session asks for no further request, read or tool run, whatever is
/// reported afterwards (the outcome of a tool that was still running
/// included), and the history stays as it was when the consumer cancelled.
pub proof fn law_nothing_after_cancel(
    session: SessionView,
    log: Seq<MessageView>,
    later: Seq<Event>,
)
    ensures
        session.transition(log, Event::Cancelled).action == ActionView::Close,
        session.transition(log, Event::Cancelled).log == log,
        session.transition(log, Event::Cancelled).session.phase == Phase::Terminal,
        run(session.transition(log, Event::Cancelled).session, log, later).log == log,
        forall|i: int|
            0 <= i < later.len() ==> #[trigger] run(
                session.transition(log, Event::Cancelled).session,
                log,
                later,
            ).actions[i] == ActionView::Close,
{
    law_terminal_is_final(session.transition(log, Event::Cancelled).session, log, later);
}

/// A session that is begun with nothing to deliver ends at once: no request
/// is sent and the history stays as it is.
pub proof fn law_empty_batch_sends_nothing(session: SessionView, log: Seq<MessageView>)
    requires
        session.phase == Phase::Idle,
        session.pending.len() == 0,
    ensures
        session.transition(log, Event::Begin).action == ActionView::Close,
        session.transition(log, Event::Begin).session.phase == Phase::Terminal,
        session.transition(log, Event::Begin).log == log,
{
    assert(session.pending =~= Seq::<MessageView>::empty());
}

/// A session that is begun with messages appends them to the history and
/// sends the whole conversation, naming the batch as what is new.
pub proof fn law_batch_is_appended_and_sent(session: SessionView, log: Seq<MessageView>)
    requires
        session.phase == Phase::Idle,
        session.pending.len() > 0,
    ensures
        session.transition(log, Event::Begin).log == appended_all(log, session.pending),
        session.transition(log, Event::Begin).session.phase == Phase::Sending,
        session.transition(log, Event::Begin).action == (ActionView::Send {
            delta: session.pending,
            messages: appended_all(log, session.pending),
        }),
{
}

/// One frame in, one merge, one item out: a frame that arrives while the
/// response streams is merged into the history, with the frame's `done` flag
/// on its message, and is handed on as the one output item.
pub proof fn law_frame_is_merged_and_yielded(
    session: SessionView,
    log: Seq<MessageView>,
    frame: ChatResponse,
)
    requires
        session.phase == Phase::Streaming,
    ensures
        session.transition(log, Event::Frame(frame)).log == appended(
            log,
            MessageView { done: frame.done, ..frame.message@ },
        ),
        session.transition(log, Event::Frame(frame)).action == ActionView::Yield(sealed(frame)),
        session.transition(log, Event::Frame(frame)).session.phase == Phase::Streaming,
{
}

/// Bytes that arrive while no frame waits are cut into frames at once: the
/// first complete frame is to be decoded and the others wait in arrival
/// order; with no complete frame, more bytes are asked for. The history is
/// not touched.
pub proof fn law_chunk_is_cut_into_frames(
    session: SessionView,
    log: Seq<MessageView>,
    bytes: Vec<u8>,
)
    requires
        session.phase == Phase::Streaming,
        session.frames.len() == 0,
    ensures
        ({
            let found = frames_in(session.buffered + bytes@);
            let step = session.transition(log, Event::Chunk(bytes));
            &&& step.log == log
            &&& step.session.phase == Phase::Streaming
            &&& step.session.buffered == left_over(session.buffered + bytes@)
            &&& found.len() == 0 ==> step.action == ActionView::Read && step.session.frames.len()
                == 0
            &&& found.len() > 0 ==> step.action == ActionView::Decode(found[0])
                && step.session.frames == found.drop_first()
        }),
{
    let found = frames_in(session.buffered + bytes@);
    assert(session.frames + found =~= found);
}

/// The events that report `count` frames in a row as holding no response.
pub open spec fn undecodable(count: nat) -> Seq<Event> {
    Seq::new(count, |i: int| Event::Undecodable)
}

/// Frames that hold no response are passed over: each waiting frame is
/// handed out to be decoded once, in arrival order, and the history stays as
/// it is.
pub proof fn law_undecodable_frames_are_passed_over(
    session: SessionView,
    log: Seq<MessageView>,
    count: nat,
)
    requires
        session.phase == Phase::Streaming,
        count <= session.frames.len(),
    ensures
        run(session, log, undecodable(count)).log == log,
        run(session, log, undecodable(count)).session == (SessionView {
            frames: session.frames.skip(count as int),
            ..session
        }),
        run(session, log, undecodable(count)).actions.len() == count,
        forall|i: int|
            0 <= i < count ==> #[trigger] run(session, log, undecodable(count)).actions[i]
                == ActionView::Decode(session.frames[i]),
    decreases count,
{
    if count == 0 {
        assert(session.frames.skip(0) =~= session.frames);
    } else {
        let fewer = (count - 1) as nat;
        law_undecodable_frames_are_passed_over(session, log, fewer);
        assert(undecodable(count).drop_last() =~= undecodable(fewer));
        assert(undecodable(count).last() == Event::Undecodable);
        let before = run(session, log, undecodable(fewer));
        assert(before.session.frames.len() > 0);
        assert(before.session.frames[0] == session.frames[fewer as int]);
        assert(before.session.frames.drop_first() =~= session.frames.skip(count as int));
    }
}

/// Two fragments of one message, the first not final, leave the history as
/// the one frame would that holds the first with the second merged in.
pub proof fn law_streamed_fragments_reassemble(
    session: SessionView,
    log: Seq<MessageView>,
    first: ChatResponse,
    second: ChatResponse,
)
    requires
        session.phase == Phase::Streaming,
        !first.done,
        first.message.role == second.message.role,
    ensures
        run(session, log, seq![Event::Frame(first), Event::Frame(second)]).log == appended(
            log,
            sealed(first).message@.merge(sealed(second).message@),
        ),
{
    let events = seq![Event::Frame(first), Event::Frame(second)];
    assert(events.drop_last() =~= seq![Event::Frame(first)]);
    assert(seq![Event::Frame(first)].drop_last() =~= Seq::<Event>::empty());
    let one = run(session, log, seq![Event::Frame(first)]);
    assert(run(session, log, Seq::<Event>::empty()).session == session);
    assert(one.log == appended(log, sealed(first).message@));
    assert(one.session.phase == Phase::Streaming);
    crate::generation::chat::history::law_fragments_reassemble(
        log,
        sealed(first).message@,
        sealed(second).message@,
    );
}

/// Termination: when a response ends and the trailing entry of the history
/// asks for no tool (or there is no entry), the session ends without another
/// request, and the history stays as it is.
pub proof fn law_answer_without_tool_calls_ends_session(
    session: SessionView,
    log: Seq<MessageView>,
)
    requires
        session.phase == Phase::Streaming,
        log.len() > 0 ==> log.last().tool_calls.len() == 0,
    ensures
        session.transition(log, Event::StreamEnded).action == ActionView::Close,
        session.transition(log, Event::StreamEnded).session.phase == Phase::Terminal,
        session.transition(log, Event::StreamEnded).log == log,
{
    assert(SessionView::trailing_calls(log) =~= Seq::<ToolCallView>::empty());
}

/// Tool calls that name no registered tool cause no invocation, and the
/// session ends as it does for an answer without tool calls.
pub proof fn law_unmatched_tool_calls_end_session(session: SessionView, log: Seq<MessageView>)
    requires
        session.phase == Phase::Streaming,
        log.len() > 0,
        forall|c: int, t: int|
            0 <= c < log.last().tool_calls.len() && 0 <= t < session.tools.len() ==> (
            #[trigger] session.tools[t]).function.name != (#[trigger] log.last().tool_calls[c]).name,
    ensures
        session.transition(log, Event::StreamEnded).action == ActionView::Close,
        session.transition(log, Event::StreamEnded).session.phase == Phase::Terminal,
        session.transition(log, Event::StreamEnded).log == log,
{
    crate::generation::tools::law_unmatched_calls_plan_nothing(
        log.last().tool_calls,
        session.tools,
    );
}

/// Progress: when the trailing entry asks for one tool and exactly that tool
/// is registered, the end of the response asks for one run of it with the
/// call's arguments. Its outcome, a result or a failure, becomes one tool
/// message that enters the history, and the next request delivers exactly
/// that message.
pub proof fn law_matched_tool_runs_once_then_sends(
    session: SessionView,
    log: Seq<MessageView>,
    outcome: Result<String, String>,
)
    requires
        session.phase == Phase::Streaming,
        log.len() > 0,
        log.last().tool_calls.len() == 1,
        session.tools.len() == 1,
        session.tools[0].function.name == log.last().tool_calls[0].name,
    ensures
        ({
            let asked = session.transition(log, Event::StreamEnded);
            let report = MessageView::fresh(Role::Tool, outcome_text(outcome));
            let sent = asked.session.transition(asked.log, Event::ToolFinished(outcome));
            &&& asked.action == ActionView::Invoke(
                InvocationView { call: 0, tool: 0, arguments: log.last().tool_calls[0].arguments },
            )
            &&& asked.session.phase == Phase::Deciding
            &&& asked.log == log
            &&& sent.log == appended(log, report)
            &&& sent.session.phase == Phase::Sending
            &&& sent.action == ActionView::Send {
                delta: seq![report],
                messages: appended(log, report),
            }
        }),
{
    let calls = log.last().tool_calls;
    assert(calls =~= seq![calls[0]]);
    assert(session.tools =~= seq![session.tools[0]]);
    crate::generation::tools::law_single_match_plans_once(calls[0], session.tools[0]);
    let report = MessageView::fresh(Role::Tool, outcome_text(outcome));
    assert(Seq::<MessageView>::empty().push(report) =~= seq![report]);
}


/// The tool messages that report `outcomes`, in order.
pub open spec fn reports(outcomes: Seq<Result<String, String>>) -> Seq<MessageView> {
    outcomes.map_values(
        |outcome: Result<String, String>| MessageView::fresh(Role::Tool, outcome_text(outcome)),
    )
}

/// The events by which tools report `outcomes`, one after the other.
pub open spec fn tool_reports(outcomes: Seq<Result<String, String>>) -> Seq<Event> {
    outcomes.map_values(|outcome: Result<String, String>| Event::ToolFinished(outcome))
}

/// The events of a deciding round: the response ends, then the tools report
/// `outcomes` one after the other.
pub open spec fn deciding_round(outcomes: Seq<Result<String, String>>) -> Seq<Event> {
    seq![Event::StreamEnded] + tool_reports(outcomes)
}

/// How many more tools a session will ask for at most before it asks for
/// something else.
pub open spec fn tools_left(session: SessionView) -> nat {
    if session.phase == Phase::Deciding && session.cursor < session.plan.len() {
        (session.plan.len() - session.cursor) as nat
    } else {
        0
    }
}

/// The text that stands for the outcome of a tool that the driver does not
/// hold.
pub open spec fn missing_tool_text() -> Seq<char> {
    "tool is not available"@
}

/// Whether `outcome` is how `asked` was served from `tools`: `asked` is a
/// request to run a tool; where `tools` hold that tool, `outcome` is what the
/// tool returned for the arguments of the request; where they do not, it is
/// the failure that stands for a missing tool.
pub open spec fn served_by<T: Tool>(
    tools: Seq<T>,
    asked: ActionView,
    outcome: Result<String, String>,
) -> bool {
    &&& asked matches ActionView::Invoke(invocation)
    &&& if invocation.tool < tools.len() {
        exists|arguments: ToolCallArguments|
            #![trigger call_ensures(T::execute, (&tools[invocation.tool], arguments), outcome)]
            arguments@ == invocation.arguments && call_ensures(
                T::execute,
                (&tools[invocation.tool], arguments),
                outcome,
            )
    } else {
        outcome matches Err(text) && text@ == missing_tool_text()
    }
}

proof fn lemma_deciding_round_grows(outcomes: Seq<Result<String, String>>)
    requires
        outcomes.len() > 0,
    ensures
        deciding_round(outcomes).drop_last() == deciding_round(outcomes.drop_last()),
        deciding_round(outcomes).last() == Event::ToolFinished(outcomes.last()),
        reports(outcomes).drop_last() == reports(outcomes.drop_last()),
        reports(outcomes).last() == MessageView::fresh(
            Role::Tool,
            outcome_text(outcomes.last()),
        ),
{
    assert(deciding_round(outcomes).drop_last() =~= deciding_round(outcomes.drop_last()));
    assert(reports(outcomes).drop_last() =~= reports(outcomes.drop_last()));
}

proof fn lemma_tools_run_in_planned_order(
    session: SessionView,
    log: Seq<MessageView>,
    outcomes: Seq<Result<String, String>>,
)
    requires
        session.phase == Phase::Streaming,
        outcomes.len() < planned(SessionView::trailing_calls(log), session.tools).len(),
    ensures
        ({
            let plan = planned(SessionView::trailing_calls(log), session.tools);
            let round = run(session, log, deciding_round(outcomes));
            &&& round.session == SessionView {
                phase: Phase::Deciding,
                plan,
                cursor: outcomes.len(),
                pending: reports(outcomes),
                ..session
            }
            &&& round.log == appended_all(log, reports(outcomes))
            &&& round.actions.len() == outcomes.len() + 1
            &&& forall|i: int|
                0 <= i <= outcomes.len() ==> #[trigger] round.actions[i] == ActionView::Invoke(
                    plan[i],
                )
        }),
    decreases outcomes.len(),
{
    let plan = planned(SessionView::trailing_calls(log), session.tools);
    if outcomes.len() == 0 {
        assert(deciding_round(outcomes) =~= seq![Event::StreamEnded]);
        assert(seq![Event::StreamEnded].drop_last() =~= Seq::<Event>::empty());
        assert(run(session, log, Seq::<Event>::empty()).session == session);
        assert(reports(outcomes) =~= Seq::<MessageView>::empty());
    } else {
        lemma_deciding_round_grows(outcomes);
        lemma_tools_run_in_planned_order(session, log, outcomes.drop_last());
        let before = run(session, log, deciding_round(outcomes.drop_last()));
        assert(before.session.pending.push(reports(outcomes).last()) =~= reports(outcomes));
    }
}

/// Ordering and progress of a deciding round: when a response ends, every
/// tool that the trailing entry's calls reach is asked for exactly once, in
/// the order of the calls and, within one call, in registration order,
/// each after the one before it has reported. Each outcome, result or
/// failure, enters the history as a tool message at once. After the last one
/// the next request goes out: it delivers exactly those tool messages, and
/// carries the whole conversation.
pub proof fn law_every_planned_tool_runs_once(
    session: SessionView,
    log: Seq<MessageView>,
    outcomes: Seq<Result<String, String>>,
)
    requires
        session.phase == Phase::Streaming,
        outcomes.len() > 0,
        outcomes.len() == planned(SessionView::trailing_calls(log), session.tools).len(),
    ensures
        ({
            let plan = planned(SessionView::trailing_calls(log), session.tools);
            let round = run(session, log, deciding_round(outcomes));
            &&& round.log == appended_all(log, reports(outcomes))
            &&& round.session.phase == Phase::Sending
            &&& round.actions.len() == outcomes.len() + 1
            &&& forall|i: int|
                0 <= i < outcomes.len() ==> #[trigger] round.actions[i] == ActionView::Invoke(
                    plan[i],
                )
            &&& round.actions[outcomes.len() as int] == ActionView::Send {
                delta: reports(outcomes),
                messages: appended_all(log, reports(outcomes)),
            }
        }),
{
    lemma_deciding_round_grows(outcomes);
    lemma_tools_run_in_planned_order(session, log, outcomes.drop_last());
    let before = run(session, log, deciding_round(outcomes.drop_last()));
    assert(before.session.pending.push(reports(outcomes).last()) =~= reports(outcomes));
}

/// No request goes out without something new to deliver, and every request
/// carries the history as it stands once the request is made.
pub proof fn law_requests_deliver_something(
    session: SessionView,
    log: Seq<MessageView>,
    event: Event,
)
    ensures
        session.transition(log, event).action matches ActionView::Send { delta, messages }
            ==> delta.len() > 0 && messages == session.transition(log, event).log,
{
}

/// The session never empties or shortens the history.
pub proof fn law_history_is_never_shortened(
    session: SessionView,
    log: Seq<MessageView>,
    event: Event,
)
    ensures
        session.transition(log, event).log.len() >= log.len(),
{
    crate::generation::chat::history::law_appending_never_shortens(log, session.pending);
}

/// Messages enter the history when the session begins, when a frame arrives
/// and when a tool reports, and at no other time.
pub proof fn law_history_changes_with_messages_only(
    session: SessionView,
    log: Seq<MessageView>,
    event: Event,
)
    requires
        !(event is Begin || event is Frame || event is ToolFinished),
    ensures
        session.transition(log, event).log == log,
{
}

/// One conversation with the backend: sends what the caller supplied, merges
/// the streamed answer into the history, runs the tools that the answer asks
/// for and sends their outcomes, until an answer asks for none.
///
/// The session does no I/O itself. A driver reports each [`Event`] with
/// [`Session::step`] and carries out the [`Action`] it gets back.
#[derive(Debug)]
pub struct Session {
    phase: Phase,
    tools: ToolRegistry,
    pending: Vec<Message>,
    plan: Vec<Invocation>,
    cursor: usize,
    finished: bool,
    decoder: FrameDecoder,
    frames: VecDeque<Vec<u8>>,
}

impl View for Session {
    type V = SessionView;

    closed spec fn view(&self) -> SessionView {
        SessionView {
            phase: self.phase,
            tools: self.tools@,
            pending: message_views(self.pending@),
            plan: invocation_views(self.plan@),
            cursor: self.cursor as nat,
            finished: self.finished,
            buffered: self.decoder@,
            frames: frame_views(self.frames@),
        }
    }
}

impl Session {
    /// A session that is to deliver `messages` and may run `tools`.
    pub fn new(tools: ToolRegistry, messages: Vec<Message>) -> (r: Self)
        ensures
            r@ == (SessionView {
                phase: Phase::Idle,
                tools: tools@,
                pending: message_views(messages@),
                plan: Seq::empty(),
                cursor: 0,
                finished: false,
                buffered: Seq::empty(),
                frames: Seq::empty(),
            }),
    {
        let r = Session {
            phase: Phase::Idle,
            tools,
            pending: messages,
            plan: Vec::new(),
            cursor: 0,
            finished: false,
            decoder: FrameDecoder::new(),
            frames: VecDeque::new(),
        };
        assert(invocation_views(r.plan@) =~= Seq::<InvocationView>::empty());
        assert(frame_views(r.frames@) =~= Seq::<Seq<u8>>::empty());
        r
    }

    /// Where the session stands.
    pub fn phase(&self) -> (r: Phase)
        ensures
            r == self@.phase,
    {
        self.phase
    }

    /// Whether the session has ended.
    pub fn is_terminal(&self) -> (r: bool)
        ensures
            r == (self@.phase == Phase::Terminal),
    {
        self.phase == Phase::Terminal
    }

    fn halt(&mut self, action: Action) -> (r: Action)
        ensures
            final(self)@ == (SessionView { phase: Phase::Terminal, ..old(self)@ }),
            r == action,
    {
        self.phase = Phase::Terminal;
        action
    }

    fn out_of_order(&mut self) -> (r: Action)
        ensures
            final(self)@ == (SessionView { phase: Phase::Terminal, ..old(self)@ }),
            r@ == ActionView::Fail(OllamaErrorView::Other(out_of_order_text())),
    {
        self.phase = Phase::Terminal;
        Action::Fail(OllamaError::Other("event out of order".to_owned()))
    }

    fn dispatch(&mut self, history: &History) -> (r: Action)
        ensures
            final(self)@ == old(self)@.dispatch(history@).session,
            r@ == old(self)@.dispatch(history@).action,
    {
        if self.pending.len() == 0 {
            self.phase = Phase::Terminal;
            Action::Close
        } else {
            let mut delta: Vec<Message> = Vec::new();
            core::mem::swap(&mut self.pending, &mut delta);
            self.phase = Phase::Sending;
            assert(message_views(self.pending@) =~= Seq::<MessageView>::empty());
            Action::Send { delta, messages: history.messages() }
        }
    }

    fn decide(&mut self, history: &History) -> (r: Action)
        ensures
            final(self)@ == old(self)@.decide(history@).session,
            r@ == old(self)@.decide(history@).action,
    {
        let calls: Vec<ToolCall> = match history.last() {
            Some(last) => last.tool_calls,
            None => Vec::new(),
        };
        assert(tool_call_views(calls@) =~= SessionView::trailing_calls(history@));
        self.plan = self.tools.plan(&calls);
        self.cursor = 0;
        self.pending = Vec::new();
        assert(message_views(self.pending@) =~= Seq::<MessageView>::empty());
        if self.plan.len() > 0 {
            self.phase = Phase::Deciding;
            Action::Invoke(self.plan[0].clone())
        } else {
            self.dispatch(history)
        }
    }

    fn record(&mut self, history: &mut History, outcome: Result<String, String>) -> (r: Action)
        ensures
            final(self)@ == old(self)@.record(old(history)@, outcome).session,
            final(history)@ == old(self)@.record(old(history)@, outcome).log,
            r@ == old(self)@.record(old(history)@, outcome).action,
    {
        let message = outcome_message(outcome);
        history.push(&message);
        let ghost before = message_views(self.pending@);
        self.pending.push(message);
        assert(message_views(self.pending@) =~= before.push(message@));
        if self.cursor < self.plan.len() {
            self.cursor = self.cursor + 1;
        }
        if self.cursor < self.plan.len() {
            Action::Invoke(self.plan[self.cursor].clone())
        } else {
            self.dispatch(history)
        }
    }

    fn receive(&mut self, bytes: &[u8])
        ensures
            final(self)@ == old(self)@.receive(bytes@),
    {
        let fresh = self.decoder.feed(bytes);
        let ghost queued = frame_views(self.frames@);
        let n: usize = fresh.len();
        let mut i: usize = 0;
        while i < n
            invariant
                i <= n,
                n == fresh@.len(),
                frame_views(self.frames@) == queued + frame_views(fresh@).take(i as int),
                self.phase == old(self).phase,
                self.tools == old(self).tools,
                self.pending == old(self).pending,
                self.plan == old(self).plan,
                self.cursor == old(self).cursor,
                self.finished == old(self).finished,
                self.decoder@ == left_over(old(self).decoder@ + bytes@),
            decreases n - i,
        {
            let ghost before = frame_views(self.frames@);
            let frame = fresh[i].clone();
            assert(frame@ == fresh@[i as int]@);
            self.frames.push_back(frame);
            assert(frame_views(self.frames@) =~= before.push(fresh@[i as int]@));
            assert(frame_views(fresh@).take(i + 1) =~= frame_views(fresh@).take(i as int).push(
                fresh@[i as int]@,
            ));
            i = i + 1;
        }
        assert(frame_views(fresh@).take(n as int) =~= frame_views(fresh@));
    }

    fn advance(&mut self) -> (r: Action)
        ensures
            final(self)@ == old(self)@.advance(Seq::empty()).session,
            r@ == old(self)@.advance(Seq::empty()).action,
    {
        let ghost queued = frame_views(self.frames@);
        match self.frames.pop_front() {
            Some(frame) => {
                assert(frame_views(self.frames@) =~= queued.drop_first());
                assert(queued[0] == frame@);
                Action::Decode(frame)
            },
            None => {
                assert(self.frames@ =~= old(self).frames@);
                Action::Read
            },
        }
    }

    /// Serves the tools that the session asks for, one after the other, until
    /// it asks for something else, and returns what it asks for then. `asked`
    /// is what the session asked for last; `tools` are the registered tools,
    /// in registration order. A tool that `tools` does not hold counts as
    /// failed.
    ///
    /// What the tools return is their own affair. Whatever it is, the session
    /// and the history end up where reporting those outcomes one by one with
    /// [`Session::step`] leads, and every answer but the last was a request
    /// for the next tool.
    pub fn run_tools<T: Tool>(
        &mut self,
        history: &mut History,
        tools: &Vec<T>,
        asked: Action,
    ) -> (next: Action)
        ensures
            !(next is Invoke),
            exists|outcomes: Seq<Result<String, String>>|
                {
                    let served = #[trigger] run(old(self)@, old(history)@, tool_reports(outcomes));
                    &&& final(self)@ == served.session
                    &&& final(history)@ == served.log
                    &&& outcomes.len() <= 1 + tools_left(old(self)@)
                    &&& asked is Invoke ==> outcomes.len() > 0 && next@ == served.actions.last()
                    &&& !(asked is Invoke) ==> outcomes.len() == 0 && next == asked
                    &&& forall|i: int|
                        0 <= i < outcomes.len() - 1 ==> (#[trigger] served.actions[i]) is Invoke
                    &&& forall|i: int|
                        0 <= i < outcomes.len() ==> served_by(
                            tools@,
                            if i == 0 {
                                asked@
                            } else {
                                served.actions[i - 1]
                            },
                            #[trigger] outcomes[i],
                        )
                },
    {
        let ghost start = self@;
        let ghost log = history@;
        let ghost mut outcomes: Seq<Result<String, String>> = Seq::empty();
        assert(tool_reports(outcomes) =~= Seq::<Event>::empty());
        let mut invocation = match asked {
            Action::Invoke(invocation) => invocation,
            other => {
                assert(run(start, log, tool_reports(outcomes)).session == start);
                return other;
            },
        };
        let mut next = Action::Close;
        loop
            invariant_except_break
                outcomes.len() + tools_left(self@) <= tools_left(start),
                outcomes.len() > 0 ==> run(start, log, tool_reports(outcomes)).actions.last()
                    == ActionView::Invoke(invocation@),
            invariant
                asked is Invoke,
                self@ == run(start, log, tool_reports(outcomes)).session,
                history@ == run(start, log, tool_reports(outcomes)).log,
                run(start, log, tool_reports(outcomes)).actions.len() == outcomes.len(),
                forall|i: int|
                    0 <= i < outcomes.len() - 1 ==> (#[trigger] run(
                        start,
                        log,
                        tool_reports(outcomes),
                    ).actions[i]) is Invoke,
                forall|i: int|
                    0 <= i < outcomes.len() ==> served_by(
                        tools@,
                        if i == 0 {
                            asked@
                        } else {
                            run(start, log, tool_reports(outcomes)).actions[i - 1]
                        },
                        #[trigger] outcomes[i],
                    ),
                outcomes.len() == 0 ==> asked@ == ActionView::Invoke(invocation@),
            ensures
                !(next is Invoke),
                0 < outcomes.len() <= 1 + tools_left(start),
                next@ == run(start, log, tool_reports(outcomes)).actions.last(),
            decreases tools_left(self@),
        {
            let ghost serving = ActionView::Invoke(invocation@);
            let outcome = if invocation.tool < tools.len() {
                tools[invocation.tool].execute(invocation.arguments)
            } else {
                Err("tool is not available".to_owned())
            };
            assert(served_by(tools@, serving, outcome));
            let ghost earlier = outcomes;
            let answer = self.step(history, Event::ToolFinished(outcome));
            proof {
                outcomes = earlier.push(outcome);
                assert(tool_reports(outcomes).drop_last() =~= tool_reports(earlier));
                assert(tool_reports(outcomes).last() == Event::ToolFinished(outcome));
                let served = run(start, log, tool_reports(outcomes));
                let so_far = run(start, log, tool_reports(earlier));
                assert(served.actions == so_far.actions.push(answer@));
                assert forall|i: int| 0 <= i < outcomes.len() - 1 implies (
                #[trigger] served.actions[i]) is Invoke by {
                    if i < earlier.len() - 1 {
                        assert(served.actions[i] == so_far.actions[i]);
                    } else {
                        assert(served.actions[i] == so_far.actions.last());
                    }
                }
                assert forall|i: int| 0 <= i < outcomes.len() implies served_by(
                    tools@,
                    if i == 0 {
                        asked@
                    } else {
                        served.actions[i - 1]
                    },
                    #[trigger] outcomes[i],
                ) by {
                    if i < earlier.len() {
                        assert(outcomes[i] == earlier[i]);
                        if i > 0 {
                            assert(served.actions[i - 1] == so_far.actions[i - 1]);
                        }
                    } else if i > 0 {
                        assert(served.actions[i - 1] == so_far.actions.last());
                    }
                }
            }
            match answer {
                Action::Invoke(more) => {
                    invocation = more;
                },
                other => {
                    next = other;
                    break ;
                },
            }
        }
        assert(run(start, log, tool_reports(outcomes)).session == self@);
        next
    }

    /// Makes the move that `event` causes and says what the driver is to do
    /// next. Messages enter `history` here and nowhere else: the caller's
    /// batch when the session begins, each frame's message as it arrives, each
    /// tool's outcome as it is reported. Once the session has ended, every
    /// event is answered with `Close` and changes nothing.
    pub fn step(&mut self, history: &mut History, event: Event) -> (action: Action)
        ensures
            final(self)@ == old(self)@.transition(old(history)@, event).session,
            final(history)@ == old(self)@.transition(old(history)@, event).log,
            action@ == old(self)@.transition(old(history)@, event).action,
    {
        if self.phase == Phase::Terminal {
            return Action::Close;
        }
        match event {
            Event::Cancelled => self.halt(Action::Close),
            Event::Failed(error) => self.halt(Action::Fail(error)),
            Event::Begin => {
                if self.phase == Phase::Idle {
                    history.extend(self.pending.as_slice());
                    self.dispatch(history)
                } else {
                    self.out_of_order()
                }
            },
            Event::Accepted => {
                if self.phase == Phase::Sending {
                    self.phase = Phase::Streaming;
                    self.finished = false;
                    self.decoder = FrameDecoder::new();
                    self.frames = VecDeque::new();
                    assert(frame_views(self.frames@) =~= Seq::<Seq<u8>>::empty());
                    Action::Read
                } else {
                    self.out_of_order()
                }
            },
            Event::Chunk(bytes) => {
                if self.phase == Phase::Streaming {
                    self.receive(bytes.as_slice());
                    self.advance()
                } else {
                    self.out_of_order()
                }
            },
            Event::Undecodable => {
                if self.phase == Phase::Streaming {
                    self.advance()
                } else {
                    self.out_of_order()
                }
            },
            Event::Rejected { status, body } => {
                if self.phase == Phase::Sending {
                    self.halt(Action::Fail(OllamaError::rejected(status.as_str(), body.as_str())))
                } else {
                    self.out_of_order()
                }
            },
            Event::Frame(frame) => {
                if self.phase == Phase::Streaming {
                    let frame = frame.seal();
                    history.push(&frame.message);
                    self.finished = frame.done;
                    Action::Yield(frame)
                } else {
                    self.out_of_order()
                }
            },
            Event::Resumed => {
                if self.phase == Phase::Streaming {
                    if self.finished {
                        self.decide(history)
                    } else {
                        self.advance()
                    }
                } else {
                    self.out_of_order()
                }
            },
            Event::StreamEnded => {
                if self.phase == Phase::Streaming {
                    self.decide(history)
                } else {
                    self.out_of_order()
                }
            },
            Event::StreamFailed(detail) => {
                if self.phase == Phase::Streaming {
                    self.halt(Action::Fail(OllamaError::stream_failure(detail.as_str())))
                } else {
                    self.out_of_order()
                }
            },
            Event::ToolFinished(outcome) => {
                if self.phase == Phase::Deciding {
                    self.record(history, outcome)
                } else {
                    self.out_of_order()
                }
            },
        }
    }
}

} // verus!
