//! The session worker: one run per inbound message. It records the user
//! turn, then consumes the upstream stream event by event, publishing text
//! deltas to the session's channel and appending them to the history, until
//! the stream stops, fails, or hands a reassembled tool call to the
//! dispatcher.

use vstd::prelude::*;

use crate::claude::Claude;
use crate::codec::{encode_user_turn, is_tool_followup, tool_prefix, user_prefix};
use crate::events::{
    ClaudeEvent, MessageAction, OpenAiEvent, content_block_delta_kind, message_stop_kind,
    tool_calls_reason,
};
use crate::marker::{stop_marker, stop_str};
use crate::memory::MemoryEmitter;
use crate::openai::{OpenAI, calls_after};
use crate::queue::record_model;
use crate::registry::{Message, SseEmitter};
use crate::text::is_prefix_of;
use crate::HISTORY_CAPACITY;

verus! {

/// One item of an OpenAI-compatible upstream stream, as the worker sees it:
/// the connection opening, a parsed event, a payload that would not parse,
/// or a transport failure.
pub enum OpenAiStreamEvent {
    Open,
    Data(OpenAiEvent),
    ParseFailure,
    TransportFailure,
}

/// One item of an Anthropic-compatible upstream stream.
pub enum ClaudeStreamEvent {
    Open,
    Data(ClaudeEvent),
    ParseFailure,
    TransportFailure,
}

/// How a worker run ended: a clean upstream stop, a stream that ran dry, a
/// tool call handed to the dispatcher, or a transport failure.
pub enum SessionEnd {
    Stopped,
    Exhausted,
    ToolDispatch(String),
    TransportFailed,
}

/// The ghost mirror of `SessionEnd`.
pub enum SessionEndModel {
    Stopped,
    Exhausted,
    ToolDispatch(Seq<char>),
    TransportFailed,
}

/// Does an end value realize its model?
pub open spec fn end_matches(e: SessionEnd, m: SessionEndModel) -> bool {
    match m {
        SessionEndModel::Stopped => e is Stopped,
        SessionEndModel::Exhausted => e is Exhausted,
        SessionEndModel::ToolDispatch(c) => e matches SessionEnd::ToolDispatch(cmd) && cmd@ == c,
        SessionEndModel::TransportFailed => e is TransportFailed,
    }
}

/// The semantic action of one event, at the specification level.
pub enum ActionModel {
    Body(Seq<char>),
    Func(Seq<char>),
    Stop,
    NoAction,
    Rejected,
}

/// The action an OpenAI-compatible event classifies into, given the
/// reassembly map it arrives at. Rejections cover an event without choices
/// and a tool-call finish whose id was never assembled.
pub open spec fn openai_action_model(ev: OpenAiEvent, calls: Map<Seq<char>, Seq<char>>) -> ActionModel {
    if ev.choices@.len() == 0 {
        ActionModel::Rejected
    } else {
        let c = ev.choices@[0];
        match c.finish_reason {
            Some(reason) => if reason@ == tool_calls_reason() {
                if calls.contains_key(ev.id@) {
                    ActionModel::Func(calls[ev.id@])
                } else {
                    ActionModel::Rejected
                }
            } else {
                ActionModel::Stop
            },
            None => match c.delta.content {
                Some(b) => ActionModel::Body(b@),
                None => ActionModel::NoAction,
            },
        }
    }
}

/// The action an Anthropic-compatible event classifies into.
pub open spec fn claude_action_model(ev: ClaudeEvent) -> ActionModel {
    match ev.kind {
        Some(kind) => if kind@ == content_block_delta_kind() {
            match ev.delta {
                Some(d) => match d.text {
                    Some(t) => ActionModel::Body(t@),
                    None => ActionModel::NoAction,
                },
                None => ActionModel::NoAction,
            }
        } else if kind@ == message_stop_kind() {
            ActionModel::Stop
        } else {
            ActionModel::NoAction
        },
        None => ActionModel::NoAction,
    }
}

/// What one consumed event does: what is published to the session, what is
/// recorded into its history, the reassembly map afterwards, and whether the
/// worker terminates.
pub struct StepModel {
    pub published: Option<Seq<char>>,
    pub recorded: Option<Seq<char>>,
    pub calls: Map<Seq<char>, Seq<char>>,
    pub end: Option<SessionEndModel>,
}

/// The step a classified action induces. An empty text delta publishes
/// nothing and records nothing; a stop or a transport failure publishes and
/// records the stop marker so the client's reply always terminates.
pub open spec fn action_step(a: ActionModel, calls: Map<Seq<char>, Seq<char>>) -> StepModel {
    match a {
        ActionModel::Body(b) => if b.len() == 0 {
            StepModel { published: None, recorded: None, calls, end: None }
        } else {
            StepModel { published: Some(b), recorded: Some(b), calls, end: None }
        },
        ActionModel::Func(c) => StepModel {
            published: None,
            recorded: None,
            calls,
            end: Some(SessionEndModel::ToolDispatch(c)),
        },
        ActionModel::Stop => StepModel {
            published: Some(stop_marker()),
            recorded: Some(stop_marker()),
            calls,
            end: Some(SessionEndModel::Stopped),
        },
        ActionModel::NoAction => StepModel { published: None, recorded: None, calls, end: None },
        ActionModel::Rejected => StepModel { published: None, recorded: None, calls, end: None },
    }
}

/// What one OpenAI-compatible stream item does.
pub open spec fn openai_step_model(ev: OpenAiStreamEvent, calls: Map<Seq<char>, Seq<char>>) -> StepModel {
    match ev {
        OpenAiStreamEvent::Open => StepModel { published: None, recorded: None, calls, end: None },
        OpenAiStreamEvent::ParseFailure => StepModel {
            published: None,
            recorded: None,
            calls,
            end: None,
        },
        OpenAiStreamEvent::TransportFailure => StepModel {
            published: Some(stop_marker()),
            recorded: Some(stop_marker()),
            calls,
            end: Some(SessionEndModel::TransportFailed),
        },
        OpenAiStreamEvent::Data(e) => action_step(
            openai_action_model(e, calls),
            calls_after(e, calls),
        ),
    }
}

/// What one Anthropic-compatible stream item does. There is no reassembly
/// state; the calls map rides along unchanged.
pub open spec fn claude_step_model(ev: ClaudeStreamEvent, calls: Map<Seq<char>, Seq<char>>) -> StepModel {
    match ev {
        ClaudeStreamEvent::Open => StepModel { published: None, recorded: None, calls, end: None },
        ClaudeStreamEvent::ParseFailure => StepModel {
            published: None,
            recorded: None,
            calls,
            end: None,
        },
        ClaudeStreamEvent::TransportFailure => StepModel {
            published: Some(stop_marker()),
            recorded: Some(stop_marker()),
            calls,
            end: Some(SessionEndModel::TransportFailed),
        },
        ClaudeStreamEvent::Data(e) => action_step(claude_action_model(e), calls),
    }
}

/// The turns a session holds in a history map, empty if never seen.
pub open spec fn session_turns(h: Map<Seq<char>, Seq<Seq<char>>>, k: Seq<char>) -> Seq<Seq<char>> {
    if h.contains_key(k) {
        h[k]
    } else {
        Seq::<Seq<char>>::empty()
    }
}

/// Record a step's delta, if any, into the session's history.
pub open spec fn apply_record(
    hist: Map<Seq<char>, Seq<Seq<char>>>,
    uuid: Seq<char>,
    rec: Option<Seq<char>>,
) -> Map<Seq<char>, Seq<Seq<char>>> {
    match rec {
        Some(d) => hist.insert(
            uuid,
            record_model(session_turns(hist, uuid), HISTORY_CAPACITY as nat, d),
        ),
        None => hist,
    }
}

/// Everything a whole worker run does.
pub struct RunModel {
    pub published: Seq<Seq<char>>,
    pub hist: Map<Seq<char>, Seq<Seq<char>>>,
    pub calls: Map<Seq<char>, Seq<char>>,
    pub end: SessionEndModel,
}

/// Fold an OpenAI-compatible stream: steps accumulate until one terminates
/// the run; a stream that runs dry ends as `Exhausted`.
pub open spec fn openai_run_model(
    evs: Seq<OpenAiStreamEvent>,
    calls: Map<Seq<char>, Seq<char>>,
    hist: Map<Seq<char>, Seq<Seq<char>>>,
    uuid: Seq<char>,
) -> RunModel
    decreases evs.len(),
{
    if evs.len() == 0 {
        RunModel { published: Seq::<Seq<char>>::empty(), hist, calls, end: SessionEndModel::Exhausted }
    } else {
        let m = openai_step_model(evs[0], calls);
        let hist1 = apply_record(hist, uuid, m.recorded);
        let pubs0 = match m.published {
            Some(p) => seq![p],
            None => Seq::<Seq<char>>::empty(),
        };
        match m.end {
            Some(e) => RunModel { published: pubs0, hist: hist1, calls: m.calls, end: e },
            None => {
                let rest = openai_run_model(evs.skip(1), m.calls, hist1, uuid);
                RunModel {
                    published: pubs0 + rest.published,
                    hist: rest.hist,
                    calls: rest.calls,
                    end: rest.end,
                }
            },
        }
    }
}

/// Fold an Anthropic-compatible stream.
pub open spec fn claude_run_model(
    evs: Seq<ClaudeStreamEvent>,
    hist: Map<Seq<char>, Seq<Seq<char>>>,
    uuid: Seq<char>,
) -> RunModel
    decreases evs.len(),
{
    if evs.len() == 0 {
        RunModel {
            published: Seq::<Seq<char>>::empty(),
            hist,
            calls: Map::<Seq<char>, Seq<char>>::empty(),
            end: SessionEndModel::Exhausted,
        }
    } else {
        let m = claude_step_model(evs[0], Map::<Seq<char>, Seq<char>>::empty());
        let hist1 = apply_record(hist, uuid, m.recorded);
        let pubs0 = match m.published {
            Some(p) => seq![p],
            None => Seq::<Seq<char>>::empty(),
        };
        match m.end {
            Some(e) => RunModel {
                published: pubs0,
                hist: hist1,
                calls: Map::<Seq<char>, Seq<char>>::empty(),
                end: e,
            },
            None => {
                let rest = claude_run_model(evs.skip(1), hist1, uuid);
                RunModel {
                    published: pubs0 + rest.published,
                    hist: rest.hist,
                    calls: Map::<Seq<char>, Seq<char>>::empty(),
                    end: rest.end,
                }
            },
        }
    }
}

/// The history after the worker's own first step: the message is recorded as
/// a completed user turn unless it is a synthetic tool follow-up, which is
/// already in the history.
pub open spec fn start_hist(
    hist: Map<Seq<char>, Seq<Seq<char>>>,
    uuid: Seq<char>,
    message: Seq<char>,
) -> Map<Seq<char>, Seq<Seq<char>>> {
    if is_prefix_of(tool_prefix(), message) {
        hist
    } else {
        apply_record(hist, uuid, Some(user_prefix() + message + stop_marker()))
    }
}

/// Consume one OpenAI-compatible stream item: publish and record what it
/// directs, and report what was published and whether the worker is done.
pub fn worker_step_openai(
    adapter: &mut OpenAI,
    registry: &SseEmitter,
    mem: &mut MemoryEmitter,
    uuid: &str,
    event: &OpenAiStreamEvent,
) -> (r: (Option<String>, Option<SessionEnd>))
    requires
        old(mem).wf(),
        registry.wf(),
    ensures
        final(mem).wf(),
        ({
            let m = openai_step_model(*event, old(adapter).calls());
            &&& final(adapter).calls() == m.calls
            &&& match m.published {
                Some(p) => r.0 matches Some(x) && x@ == p,
                None => r.0 is None,
            }
            &&& final(mem).histories() == apply_record(old(mem).histories(), uuid@, m.recorded)
            &&& match m.end {
                Some(e) => r.1 matches Some(x) && end_matches(x, e),
                None => r.1 is None,
            }
        }),
{
    match event {
        OpenAiStreamEvent::Open => (None, None),
        OpenAiStreamEvent::ParseFailure => (None, None),
        OpenAiStreamEvent::TransportFailure => {
            let stop = stop_str();
            registry.publish(uuid, Message::Reply(stop.to_owned()));
            mem.insert(uuid.to_owned(), stop.to_owned());
            (Some(stop.to_owned()), Some(SessionEnd::TransportFailed))
        },
        OpenAiStreamEvent::Data(ev) => {
            match adapter.process(ev) {
                Ok(MessageAction::SendBody(body)) => {
                    if body.as_str().is_empty() {
                        (None, None)
                    } else {
                        registry.publish(uuid, Message::Reply(body.clone()));
                        mem.insert(uuid.to_owned(), body.clone());
                        (Some(body), None)
                    }
                },
                Ok(MessageAction::SendFunc(cmd)) => (None, Some(SessionEnd::ToolDispatch(cmd))),
                Ok(MessageAction::Stop) => {
                    let stop = stop_str();
                    registry.publish(uuid, Message::Reply(stop.to_owned()));
                    mem.insert(uuid.to_owned(), stop.to_owned());
                    (Some(stop.to_owned()), Some(SessionEnd::Stopped))
                },
                Ok(MessageAction::NoAction) => (None, None),
                Err(_) => (None, None),
            }
        },
    }
}

/// Consume one Anthropic-compatible stream item.
pub fn worker_step_claude(
    adapter: &Claude,
    registry: &SseEmitter,
    mem: &mut MemoryEmitter,
    uuid: &str,
    event: &ClaudeStreamEvent,
) -> (r: (Option<String>, Option<SessionEnd>))
    requires
        old(mem).wf(),
        registry.wf(),
    ensures
        final(mem).wf(),
        ({
            let m = claude_step_model(*event, Map::<Seq<char>, Seq<char>>::empty());
            &&& match m.published {
                Some(p) => r.0 matches Some(x) && x@ == p,
                None => r.0 is None,
            }
            &&& final(mem).histories() == apply_record(old(mem).histories(), uuid@, m.recorded)
            &&& match m.end {
                Some(e) => r.1 matches Some(x) && end_matches(x, e),
                None => r.1 is None,
            }
        }),
{
    match event {
        ClaudeStreamEvent::Open => (None, None),
        ClaudeStreamEvent::ParseFailure => (None, None),
        ClaudeStreamEvent::TransportFailure => {
            let stop = stop_str();
            registry.publish(uuid, Message::Reply(stop.to_owned()));
            mem.insert(uuid.to_owned(), stop.to_owned());
            (Some(stop.to_owned()), Some(SessionEnd::TransportFailed))
        },
        ClaudeStreamEvent::Data(ev) => {
            match adapter.process(ev) {
                MessageAction::SendBody(body) => {
                    if body.as_str().is_empty() {
                        (None, None)
                    } else {
                        registry.publish(uuid, Message::Reply(body.clone()));
                        mem.insert(uuid.to_owned(), body.clone());
                        (Some(body), None)
                    }
                },
                MessageAction::SendFunc(_) => (None, None),
                MessageAction::Stop => {
                    let stop = stop_str();
                    registry.publish(uuid, Message::Reply(stop.to_owned()));
                    mem.insert(uuid.to_owned(), stop.to_owned());
                    (Some(stop.to_owned()), Some(SessionEnd::Stopped))
                },
                MessageAction::NoAction => (None, None),
            }
        },
    }
}

/// Drive one OpenAI-compatible worker over a whole upstream stream, in
/// order: publications happen in event order, and the returned list holds
/// them as published.
pub fn run_openai_session(
    adapter: &mut OpenAI,
    registry: &SseEmitter,
    mem: &mut MemoryEmitter,
    uuid: &str,
    message: &str,
    events: &Vec<OpenAiStreamEvent>,
) -> (r: (Vec<String>, SessionEnd))
    requires
        old(mem).wf(),
        registry.wf(),
    ensures
        final(mem).wf(),
        ({
            let rm = openai_run_model(
                events@,
                old(adapter).calls(),
                start_hist(old(mem).histories(), uuid@, message@),
                uuid@,
            );
            &&& r.0@.map_values(|s: String| s@) =~~= rm.published
            &&& final(mem).histories() == rm.hist
            &&& final(adapter).calls() == rm.calls
            &&& end_matches(r.1, rm.end)
        }),
{
    if !is_tool_followup(message) {
        let turn = encode_user_turn(message);
        mem.insert(uuid.to_owned(), turn);
    }
    proof {
        assert(mem.histories() == start_hist(old(mem).histories(), uuid@, message@));
    }
    let ghost h0 = mem.histories();
    let ghost calls0 = adapter.calls();
    let ghost total = openai_run_model(events@, calls0, h0, uuid@);
    let mut published: Vec<String> = Vec::new();
    proof {
        assert(events@.skip(0) =~~= events@);
        assert(published@.map_values(|s: String| s@) =~~= Seq::<Seq<char>>::empty());
        assert(Seq::<Seq<char>>::empty() + total.published =~~= total.published);
    }
    let n = events.len();
    let mut i: usize = 0;
    while i < n
        invariant
            n == events@.len(),
            0 <= i <= n,
            mem.wf(),
            registry.wf(),
            h0 == start_hist(old(mem).histories(), uuid@, message@),
            calls0 == old(adapter).calls(),
            total == openai_run_model(events@, calls0, h0, uuid@),
            ({
                let rm_i = openai_run_model(
                    events@.skip(i as int),
                    adapter.calls(),
                    mem.histories(),
                    uuid@,
                );
                &&& total.published =~~= published@.map_values(|s: String| s@) + rm_i.published
                &&& total.hist == rm_i.hist
                &&& total.calls == rm_i.calls
                &&& total.end == rm_i.end
            }),
        decreases n - i,
    {
        let ghost pre_map = published@.map_values(|s: String| s@);
        let ghost calls_i = adapter.calls();
        let ghost rm_i = openai_run_model(
            events@.skip(i as int),
            adapter.calls(),
            mem.histories(),
            uuid@,
        );
        proof {
            assert(events@.skip(i as int)[0] == events@[i as int]);
            assert(events@.skip(i as int).skip(1) =~~= events@.skip(i + 1));
        }
        let (p, e) = worker_step_openai(adapter, registry, mem, uuid, &events[i]);
        let ghost m = openai_step_model(events@[i as int], calls_i);
        match p {
            Some(pp) => {
                published.push(pp);
                proof {
                    assert(published@.map_values(|s: String| s@) =~~= pre_map.push(
                        published@.last()@,
                    ));
                }
            },
            None => {},
        }
        match e {
            Some(ee) => {
                proof {
                    assert(total.published =~~= published@.map_values(|s: String| s@));
                }
                return (published, ee);
            },
            None => {},
        }
        i = i + 1;
    }
    proof {
        assert(openai_run_model(
            events@.skip(n as int),
            adapter.calls(),
            mem.histories(),
            uuid@,
        ).published =~~= Seq::<Seq<char>>::empty());
        assert(total.published =~~= published@.map_values(|s: String| s@));
    }
    (published, SessionEnd::Exhausted)
}

/// Drive one Anthropic-compatible worker over a whole upstream stream. The
/// user turn is always recorded first: this provider has no tool follow-ups.
pub fn run_claude_session(
    adapter: &Claude,
    registry: &SseEmitter,
    mem: &mut MemoryEmitter,
    uuid: &str,
    message: &str,
    events: &Vec<ClaudeStreamEvent>,
) -> (r: (Vec<String>, SessionEnd))
    requires
        old(mem).wf(),
        registry.wf(),
    ensures
        final(mem).wf(),
        ({
            let rm = claude_run_model(
                events@,
                apply_record(
                    old(mem).histories(),
                    uuid@,
                    Some(user_prefix() + message@ + stop_marker()),
                ),
                uuid@,
            );
            &&& r.0@.map_values(|s: String| s@) =~~= rm.published
            &&& final(mem).histories() == rm.hist
            &&& end_matches(r.1, rm.end)
        }),
{
    let turn = encode_user_turn(message);
    mem.insert(uuid.to_owned(), turn);
    let ghost h0 = mem.histories();
    let ghost total = claude_run_model(events@, h0, uuid@);
    let mut published: Vec<String> = Vec::new();
    proof {
        assert(events@.skip(0) =~~= events@);
        assert(published@.map_values(|s: String| s@) =~~= Seq::<Seq<char>>::empty());
        assert(Seq::<Seq<char>>::empty() + total.published =~~= total.published);
    }
    let n = events.len();
    let mut i: usize = 0;
    while i < n
        invariant
            n == events@.len(),
            0 <= i <= n,
            mem.wf(),
            registry.wf(),
            h0 == apply_record(
                old(mem).histories(),
                uuid@,
                Some(user_prefix() + message@ + stop_marker()),
            ),
            total == claude_run_model(events@, h0, uuid@),
            ({
                let rm_i = claude_run_model(events@.skip(i as int), mem.histories(), uuid@);
                &&& total.published =~~= published@.map_values(|s: String| s@) + rm_i.published
                &&& total.hist == rm_i.hist
                &&& total.end == rm_i.end
            }),
        decreases n - i,
    {
        let ghost pre_map = published@.map_values(|s: String| s@);
        proof {
            assert(events@.skip(i as int)[0] == events@[i as int]);
            assert(events@.skip(i as int).skip(1) =~~= events@.skip(i + 1));
        }
        let (p, e) = worker_step_claude(adapter, registry, mem, uuid, &events[i]);
        match p {
            Some(pp) => {
                published.push(pp);
                proof {
                    assert(published@.map_values(|s: String| s@) =~~= pre_map.push(
                        published@.last()@,
                    ));
                }
            },
            None => {},
        }
        match e {
            Some(ee) => {
                proof {
                    assert(total.published =~~= published@.map_values(|s: String| s@));
                }
                return (published, ee);
            },
            None => {},
        }
        i = i + 1;
    }
    proof {
        assert(total.published =~~= published@.map_values(|s: String| s@));
    }
    (published, SessionEnd::Exhausted)
}

/// A terminated stream always ends the client's reply: whenever a run ends
/// by an upstream stop or a transport failure, the stop sentinel is the last
/// thing published, so every earlier reply is followed by another reply and
/// finally by the stop.
pub proof fn lemma_terminated_run_ends_with_stop(
    evs: Seq<OpenAiStreamEvent>,
    calls: Map<Seq<char>, Seq<char>>,
    hist: Map<Seq<char>, Seq<Seq<char>>>,
    uuid: Seq<char>,
)
    ensures
        ({
            let rm = openai_run_model(evs, calls, hist, uuid);
            (rm.end is Stopped || rm.end is TransportFailed) ==> rm.published.len() > 0
                && rm.published.last() == stop_marker()
        }),
    decreases evs.len(),
{
    if evs.len() > 0 {
        let m = openai_step_model(evs[0], calls);
        if m.end is None {
            lemma_terminated_run_ends_with_stop(
                evs.skip(1),
                m.calls,
                apply_record(hist, uuid, m.recorded),
                uuid,
            );
        }
    }
}

/// The same termination guarantee for the Anthropic-compatible worker.
pub proof fn lemma_terminated_claude_run_ends_with_stop(
    evs: Seq<ClaudeStreamEvent>,
    hist: Map<Seq<char>, Seq<Seq<char>>>,
    uuid: Seq<char>,
)
    ensures
        ({
            let rm = claude_run_model(evs, hist, uuid);
            (rm.end is Stopped || rm.end is TransportFailed) ==> rm.published.len() > 0
                && rm.published.last() == stop_marker()
        }),
    decreases evs.len(),
{
    if evs.len() > 0 {
        let m = claude_step_model(evs[0], Map::<Seq<char>, Seq<char>>::empty());
        if m.end is None {
            lemma_terminated_claude_run_ends_with_stop(
                evs.skip(1),
                apply_record(hist, uuid, m.recorded),
                uuid,
            );
        }
    }
}

/// Recording the stop marker always leaves a latest turn that is complete:
/// it either closes the accumulating turn or stands as a whole turn itself.
proof fn lemma_record_stop_completes(ts: Seq<Seq<char>>, cap: nat)
    ensures
        record_model(ts, cap, stop_marker()).len() > 0,
        crate::marker::is_complete(record_model(ts, cap, stop_marker()).last()),
{
    let r = record_model(ts, cap, stop_marker());
    if ts.len() == 0 || crate::marker::is_complete(ts.last()) {
        assert(r.last() == stop_marker());
        assert(stop_marker().subrange(0, 8) =~= stop_marker());
    } else {
        let joined = ts.last() + stop_marker();
        assert(r.last() == joined);
        assert(joined.subrange(joined.len() - 8, joined.len() as int) =~= stop_marker());
    }
}

/// After a run terminated by an upstream stop or a transport failure, the
/// session's latest stored turn is complete: the recorded stop marker closed
/// it.
pub proof fn lemma_terminated_run_closes_history(
    evs: Seq<OpenAiStreamEvent>,
    calls: Map<Seq<char>, Seq<char>>,
    hist: Map<Seq<char>, Seq<Seq<char>>>,
    uuid: Seq<char>,
)
    ensures
        ({
            let rm = openai_run_model(evs, calls, hist, uuid);
            (rm.end is Stopped || rm.end is TransportFailed) ==> session_turns(rm.hist, uuid).len()
                > 0 && crate::marker::is_complete(session_turns(rm.hist, uuid).last())
        }),
    decreases evs.len(),
{
    if evs.len() > 0 {
        let m = openai_step_model(evs[0], calls);
        match m.end {
            Some(e) => {
                if e is Stopped || e is TransportFailed {
                    lemma_record_stop_completes(session_turns(hist, uuid), HISTORY_CAPACITY as nat);
                }
            },
            None => {
                lemma_terminated_run_closes_history(
                    evs.skip(1),
                    m.calls,
                    apply_record(hist, uuid, m.recorded),
                    uuid,
                );
            },
        }
    }
}

/// The same closing guarantee for the Anthropic-compatible worker.
pub proof fn lemma_terminated_claude_run_closes_history(
    evs: Seq<ClaudeStreamEvent>,
    hist: Map<Seq<char>, Seq<Seq<char>>>,
    uuid: Seq<char>,
)
    ensures
        ({
            let rm = claude_run_model(evs, hist, uuid);
            (rm.end is Stopped || rm.end is TransportFailed) ==> session_turns(rm.hist, uuid).len()
                > 0 && crate::marker::is_complete(session_turns(rm.hist, uuid).last())
        }),
    decreases evs.len(),
{
    if evs.len() > 0 {
        let m = claude_step_model(evs[0], Map::<Seq<char>, Seq<char>>::empty());
        match m.end {
            Some(e) => {
                if e is Stopped || e is TransportFailed {
                    lemma_record_stop_completes(session_turns(hist, uuid), HISTORY_CAPACITY as nat);
                }
            },
            None => {
                lemma_terminated_claude_run_closes_history(
                    evs.skip(1),
                    apply_record(hist, uuid, m.recorded),
                    uuid,
                );
            },
        }
    }
}

/// An empty text delta is a no-op: nothing is published and nothing is
/// appended to the history.
pub proof fn lemma_empty_body_noop(ev: OpenAiEvent, calls: Map<Seq<char>, Seq<char>>)
    requires
        openai_action_model(ev, calls) == ActionModel::Body(Seq::<char>::empty()),
    ensures
        ({
            let m = openai_step_model(OpenAiStreamEvent::Data(ev), calls);
            m.published is None && m.recorded is None
        }),
{
}

/// Build the synthetic follow-up message a dispatched tool result becomes,
/// and record the completed tool turn into the session's history, so the
/// follow-up request replays it as a `tool` role turn.
pub fn record_tool_result(mem: &mut MemoryEmitter, uuid: &str, result: &str) -> (r: String)
    requires
        old(mem).wf(),
    ensures
        final(mem).wf(),
        r@ == tool_prefix() + result@,
        final(mem).histories() == apply_record(
            old(mem).histories(),
            uuid@,
            Some(tool_prefix() + result@ + stop_marker()),
        ),
{
    let followup = String::from_str(crate::codec::tool_prefix_str()).concat(result);
    let turn = followup.clone().concat(stop_str());
    proof {
        assert((tool_prefix() + result@) + stop_marker() =~= tool_prefix() + result@
            + stop_marker());
    }
    mem.insert(uuid.to_owned(), turn);
    followup
}

} // verus!
