//! The control-channel worker: a state machine stepped once per observation
//! of its polling loop. The loop itself (channel reads and writes, the sleep
//! between polls) runs outside; each observation is handed in as a
//! `WorkerInput`, and the machine answers with the events to deliver.
use crate::events::abs_events;
use crate::events::is_terminal_event;
use crate::events::Event;
use crate::events::EventV;
use crate::linebuf::complete_lines;
use crate::linebuf::line_rest;
use crate::linebuf::LineAccumulator;
use vstd::prelude::*;

verus! {

/// One observation of the worker loop.
///
/// `StopRequested`: the stop signal was set. `WriteFailed`: writing a queued
/// command to the channel failed. `Data`: a read returned bytes. `NoData`: a
/// read returned nothing or would have blocked, without end-of-stream.
/// `EndOfStream`: the remote side closed the stream. `ReadFailed`: a read
/// fault other than would-block.
#[derive(Debug, Clone, PartialEq, Eq)]
pub enum WorkerInput {
    StopRequested,
    WriteFailed(String),
    Data(Vec<u8>),
    NoData,
    EndOfStream,
    ReadFailed(String),
}

/// The mathematical value of a `WorkerInput`.
#[verifier::ext_equal]
pub enum WorkerInputV {
    StopRequested,
    WriteFailed(Seq<char>),
    Data(Seq<u8>),
    NoData,
    EndOfStream,
    ReadFailed(Seq<char>),
}

impl View for WorkerInput {
    type V = WorkerInputV;

    open spec fn view(&self) -> WorkerInputV {
        match self {
            WorkerInput::StopRequested => WorkerInputV::StopRequested,
            WorkerInput::WriteFailed(m) => WorkerInputV::WriteFailed(m@),
            WorkerInput::Data(b) => WorkerInputV::Data(b@),
            WorkerInput::NoData => WorkerInputV::NoData,
            WorkerInput::EndOfStream => WorkerInputV::EndOfStream,
            WorkerInput::ReadFailed(m) => WorkerInputV::ReadFailed(m@),
        }
    }
}

/// The abstract state of a worker: whether it still runs, and what partial
/// line is buffered.
#[verifier::ext_equal]
pub struct WorkerV {
    pub running: bool,
    pub buffered: Seq<u8>,
}

/// The state after one observation. A terminated worker never changes.
pub open spec fn step_state(s: WorkerV, inp: WorkerInputV) -> WorkerV {
    if !s.running {
        s
    } else {
        match inp {
            WorkerInputV::StopRequested => WorkerV { running: false, ..s },
            WorkerInputV::WriteFailed(m) => WorkerV { running: false, ..s },
            WorkerInputV::Data(bytes) => WorkerV {
                running: true,
                buffered: line_rest(s.buffered + bytes),
            },
            WorkerInputV::NoData => s,
            WorkerInputV::EndOfStream => WorkerV { running: false, ..s },
            WorkerInputV::ReadFailed(m) => WorkerV { running: false, ..s },
        }
    }
}

/// One `Line` event per completed line, in order.
pub open spec fn line_events(ls: Seq<Seq<u8>>) -> Seq<EventV> {
    ls.map(|i: int, l: Seq<u8>| EventV::Line(l))
}

/// The events one observation makes the worker emit. A terminated worker
/// emits nothing.
pub open spec fn step_events(s: WorkerV, inp: WorkerInputV) -> Seq<EventV> {
    if !s.running {
        Seq::empty()
    } else {
        match inp {
            WorkerInputV::StopRequested => seq![EventV::Stopped],
            WorkerInputV::WriteFailed(m) => seq![EventV::Error(m), EventV::Stopped],
            WorkerInputV::Data(bytes) => line_events(complete_lines(s.buffered + bytes)),
            WorkerInputV::NoData => Seq::empty(),
            WorkerInputV::EndOfStream => seq![EventV::Closed],
            WorkerInputV::ReadFailed(m) => seq![EventV::Error(m), EventV::Stopped],
        }
    }
}

/// The state of one control-channel worker.
pub struct ControlWorker {
    running: bool,
    acc: LineAccumulator,
}

impl View for ControlWorker {
    type V = WorkerV;

    closed spec fn view(&self) -> WorkerV {
        WorkerV { running: self.running, buffered: self.acc.buffered() }
    }
}

impl ControlWorker {
    /// The accumulator buffers no newline.
    pub closed spec fn wf(&self) -> bool {
        self.acc.wf()
    }

    /// A worker that has just attached its session, together with the
    /// `Started` event, the first event of its stream.
    pub fn started() -> (r: (ControlWorker, Vec<Event>))
        ensures
            r.0.wf(),
            r.0@ == (WorkerV { running: true, buffered: Seq::empty() }),
            abs_events(r.1@) == seq![EventV::Started],
    {
        let w = ControlWorker { running: true, acc: LineAccumulator::new() };
        let mut evs: Vec<Event> = Vec::new();
        evs.push(Event::Started);
        proof {
            assert(w@ =~= (WorkerV { running: true, buffered: Seq::empty() }));
            assert(abs_events(evs@) =~= seq![EventV::Started]);
        }
        (w, evs)
    }

    /// Feed the worker one observation of its loop and collect the events to
    /// deliver, in order.
    pub fn step(&mut self, inp: WorkerInput) -> (out: Vec<Event>)
        requires
            old(self).wf(),
            old(self)@.running,
        ensures
            final(self).wf(),
            final(self)@ == step_state(old(self)@, inp@),
            abs_events(out@) == step_events(old(self)@, inp@),
    {
        match inp {
            WorkerInput::StopRequested => {
                self.running = false;
                let mut out: Vec<Event> = Vec::new();
                out.push(Event::Stopped);
                proof {
                    assert(self@ =~= step_state(old(self)@, WorkerInputV::StopRequested));
                    assert(abs_events(out@) =~= seq![EventV::Stopped]);
                }
                out
            },
            WorkerInput::WriteFailed(m) => {
                self.running = false;
                let ghost mv = m@;
                let mut out: Vec<Event> = Vec::new();
                out.push(Event::Error(m));
                out.push(Event::Stopped);
                proof {
                    assert(self@ =~= step_state(old(self)@, WorkerInputV::WriteFailed(mv)));
                    assert(abs_events(out@) =~= seq![EventV::Error(mv), EventV::Stopped]);
                }
                out
            },
            WorkerInput::Data(bytes) => {
                let lines = self.acc.feed(bytes.as_slice());
                let ghost total = lines.deep_view();
                proof {
                    assert(total == complete_lines(old(self)@.buffered + bytes@));
                    assert(self@ =~= step_state(old(self)@, WorkerInputV::Data(bytes@)));
                }
                let mut out: Vec<Event> = Vec::new();
                let mut rest = lines;
                proof {
                    assert(abs_events(out@) + line_events(rest.deep_view()) =~= line_events(total));
                }
                while rest.len() > 0
                    invariant
                        abs_events(out@) + line_events(rest.deep_view()) == line_events(total),
                    decreases rest.len(),
                {
                    let ghost pre_out = out@;
                    let ghost pre_rest = rest.deep_view();
                    let l = rest.remove(0);
                    proof {
                        assert(rest.deep_view() =~= pre_rest.drop_first());
                        assert(l.deep_view() =~= l@);
                        assert(l@ == pre_rest[0]);
                    }
                    out.push(Event::Line(l));
                    proof {
                        assert(abs_events(out@) + line_events(rest.deep_view()) =~= line_events(
                            total,
                        ));
                    }
                }
                proof {
                    assert(rest.deep_view() =~= Seq::<Seq<u8>>::empty());
                    assert(abs_events(out@) =~= line_events(total));
                }
                out
            },
            WorkerInput::NoData => {
                let out: Vec<Event> = Vec::new();
                proof {
                    assert(abs_events(out@) =~= Seq::<EventV>::empty());
                }
                out
            },
            WorkerInput::EndOfStream => {
                self.running = false;
                let mut out: Vec<Event> = Vec::new();
                out.push(Event::Closed);
                proof {
                    assert(self@ =~= step_state(old(self)@, WorkerInputV::EndOfStream));
                    assert(abs_events(out@) =~= seq![EventV::Closed]);
                }
                out
            },
            WorkerInput::ReadFailed(m) => {
                self.running = false;
                let ghost mv = m@;
                let mut out: Vec<Event> = Vec::new();
                out.push(Event::Error(m));
                out.push(Event::Stopped);
                proof {
                    assert(self@ =~= step_state(old(self)@, WorkerInputV::ReadFailed(mv)));
                    assert(abs_events(out@) =~= seq![EventV::Error(mv), EventV::Stopped]);
                }
                out
            },
        }
    }
}

/// The full event sequence a fresh worker emits when its loop observes a
/// given script of inputs: `Started`, then what each step emits in turn.
pub open spec fn run_events(s: WorkerV, script: Seq<WorkerInputV>) -> Seq<EventV>
    decreases script.len(),
{
    if script.len() == 0 {
        Seq::empty()
    } else {
        step_events(s, script[0]) + run_events(step_state(s, script[0]), script.skip(1))
    }
}

/// The transcript of one worker: the `Started` event, then everything its
/// loop emits for the given script.
pub open spec fn worker_transcript(script: Seq<WorkerInputV>) -> Seq<EventV> {
    seq![EventV::Started] + run_events(WorkerV { running: true, buffered: Seq::empty() }, script)
}

/// Total per-key event order: `Started` first and only first, a terminal
/// `Stopped` or `Closed` only in last position, and every `Error` immediately
/// followed by `Stopped`.
pub open spec fn ordered_events(es: Seq<EventV>) -> bool {
    &&& es.len() > 0
    &&& es[0] == EventV::Started
    &&& forall|i: int| 1 <= i < es.len() ==> es[i] != EventV::Started
    &&& forall|i: int| 0 <= i < es.len() && is_terminal_event(#[trigger] es[i]) ==> i == es.len()
        - 1
    &&& forall|i: int| 0 <= i < es.len() && #[trigger] es[i] is Error ==> i + 1 < es.len() && es[i
        + 1] is Stopped
}

/// A terminated worker emits nothing more.
pub proof fn lemma_run_terminated(s: WorkerV, script: Seq<WorkerInputV>)
    requires
        !s.running,
    ensures
        run_events(s, script) == Seq::<EventV>::empty(),
    decreases script.len(),
{
    if script.len() > 0 {
        lemma_run_terminated(step_state(s, script[0]), script.skip(1));
        assert(run_events(s, script) =~= Seq::<EventV>::empty());
    }
}

/// What a running worker emits holds no `Started`, holds a terminal event
/// only in last position, and follows every `Error` with `Stopped`.
pub proof fn lemma_run_shape(s: WorkerV, script: Seq<WorkerInputV>)
    requires
        s.running,
    ensures
        forall|i: int|
            0 <= i < run_events(s, script).len() ==> #[trigger] run_events(s, script)[i]
                != EventV::Started,
        forall|i: int|
            0 <= i < run_events(s, script).len() && is_terminal_event(
                #[trigger] run_events(s, script)[i],
            ) ==> i == run_events(s, script).len() - 1,
        forall|i: int|
            0 <= i < run_events(s, script).len() && #[trigger] run_events(s, script)[i] is Error
                ==> i + 1 < run_events(s, script).len() && run_events(s, script)[i + 1] is Stopped,
    decreases script.len(),
{
    if script.len() > 0 {
        let e0 = step_events(s, script[0]);
        let s1 = step_state(s, script[0]);
        let rest = run_events(s1, script.skip(1));
        assert(run_events(s, script) == e0 + rest);
        match script[0] {
            WorkerInputV::Data(bytes) => {
                assert(forall|i: int|
                    0 <= i < e0.len() ==> #[trigger] e0[i] == EventV::Line(
                        complete_lines(s.buffered + bytes)[i],
                    ));
            },
            _ => {},
        }
        if s1.running {
            lemma_run_shape(s1, script.skip(1));
        } else {
            lemma_run_terminated(s1, script.skip(1));
        }
    }
}

/// Event ordering per key is total: for any script of loop observations, the
/// worker's transcript is exactly `Started`, then `Line` and `Error` events
/// in arrival order, with a single `Stopped` or `Closed` only at the end and
/// every `Error` immediately followed by `Stopped`.
pub proof fn lemma_event_order(script: Seq<WorkerInputV>)
    ensures
        ordered_events(worker_transcript(script)),
{
    let s0 = WorkerV { running: true, buffered: Seq::empty() };
    lemma_run_shape(s0, script);
    let es = worker_transcript(script);
    let run = run_events(s0, script);
    assert(es == seq![EventV::Started] + run);
    assert(es[0] == EventV::Started);
    assert forall|i: int| 1 <= i < es.len() implies es[i] != EventV::Started by {
        assert(es[i] == run[i - 1]);
    }
    assert forall|i: int|
        0 <= i < es.len() && is_terminal_event(#[trigger] es[i]) implies i == es.len() - 1 by {
        if i >= 1 {
            assert(es[i] == run[i - 1]);
        }
    }
    assert forall|i: int|
        0 <= i < es.len() && #[trigger] es[i] is Error implies i + 1 < es.len() && es[i
        + 1] is Stopped by {
        if i >= 1 {
            assert(es[i] == run[i - 1]);
            assert(run[i] is Stopped);
            assert(es[i + 1] == run[i]);
        }
    }
}

/// Append the trailing newline a command must end with before it is written,
/// leaving a command that already ends with one alone.
pub fn with_newline(cmd: String) -> (r: String)
    ensures
        r@ == (if cmd@.len() > 0 && cmd@.last() == '\n' {
            cmd@
        } else {
            cmd@.push('\n')
        }),
{
    let n: usize = cmd.as_str().unicode_len();
    if n > 0 && cmd.as_str().get_char(n - 1) == '\n' {
        cmd
    } else {
        let ghost before = cmd@;
        let mut c = cmd;
        proof {
            reveal_strlit("\n");
            assert(("\n")@ =~= seq!['\n']);
        }
        c.append("\n");
        proof {
            assert(c@ =~= before.push('\n'));
        }
        c
    }
}

} // verus!
