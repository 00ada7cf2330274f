use vstd::prelude::*;
use vstd::string::StringExecFns;

use crate::models::{Log, LogBatch, LogEvent, TimePoint};

verus! {

/// The wire projection of an event: same label, line and capture time.
pub open spec fn log_of(ev: LogEvent) -> Log {
    Log { label: ev.label, line: ev.content, timestamp: ev.timestamp }
}

/// Project one event onto the wire shape.
pub fn event_to_log(event: LogEvent) -> (log: Log)
    ensures
        log == log_of(event),
{
    Log { label: event.label, line: event.content, timestamp: event.timestamp }
}

/// A batch identifier: the agent's identifier, a hyphen, and a 36-character
/// unique suffix.
pub open spec fn batch_id_wf(id: Seq<char>, agent: Seq<char>) -> bool {
    exists|u: Seq<char>| u.len() == 36 && id == agent + seq!['-'] + u
}

/// Relies on `uuid::Uuid::new_v4` and its `Display` form: a random
/// version-4 UUID rendered as the 36-character hyphenated string. The call
/// aborts only if the operating system's random source fails.
#[verifier::external_body]
fn fresh_uuid() -> (r: String)
    ensures
        r@.len() == 36,
{
    uuid::Uuid::new_v4().to_string()
}

/// A fresh batch identifier for this agent.
fn make_batch_id(agent_id: &String) -> (r: String)
    ensures
        batch_id_wf(r@, agent_id@),
{
    let mut id = agent_id.clone();
    id.append("-");
    let suffix = fresh_uuid();
    id.append(suffix.as_str());
    proof {
        reveal_strlit("-");
        assert("-"@ =~= seq!['-']);
        assert(id@ == agent_id@ + seq!['-'] + suffix@);
    }
    id
}

/// One thing the forwarder reacts to: an incoming event, or an elapsed
/// flush interval.
pub enum FwdInput {
    Event(Log),
    Tick,
}

/// What one input does to the open batch: an event is appended, and the
/// batch is flushed the moment it reaches `size`; a tick flushes whatever
/// is accumulated; an empty batch is never flushed.
pub open spec fn fwd_step(buf: Seq<Log>, size: nat, inp: FwdInput) -> (Seq<Log>, Option<Seq<Log>>) {
    match inp {
        FwdInput::Event(l) => {
            let b = buf.push(l);
            if b.len() >= size {
                (Seq::empty(), Some(b))
            } else {
                (b, None)
            }
        },
        FwdInput::Tick => {
            if buf.len() == 0 {
                (buf, None)
            } else {
                (Seq::empty(), Some(buf))
            }
        },
    }
}

/// Fold a whole input sequence: the final open batch, and every flushed
/// batch in flush order.
pub open spec fn fwd_run(buf: Seq<Log>, size: nat, inputs: Seq<FwdInput>) -> (
    Seq<Log>,
    Seq<Seq<Log>>,
)
    decreases inputs.len(),
{
    if inputs.len() == 0 {
        (buf, Seq::empty())
    } else {
        let stepped = fwd_step(buf, size, inputs.first());
        let rest = fwd_run(stepped.0, size, inputs.drop_first());
        (
            rest.0,
            (match stepped.1 {
                Some(b) => seq![b],
                None => Seq::empty(),
            }) + rest.1,
        )
    }
}

/// The inputs that a sequence of events makes.
pub open spec fn as_events(evs: Seq<Log>) -> Seq<FwdInput> {
    evs.map_values(|l: Log| FwdInput::Event(l))
}

/// The forwarder: accumulates events from every collector into one open
/// batch and decides when that batch is flushed.
#[derive(Debug)]
pub struct Forwarder {
    /// Identifier of this agent, stamped on every batch.
    pub agent_id: String,
    /// Name of this agent, stamped on every batch.
    pub agent_name: String,
    /// The size at which the open batch is flushed at once.
    pub batch_size: usize,
    /// The most seconds an open batch may wait unsent; the caller's timer
    /// runs on it.
    pub flush_interval: u64,
    /// The open batch.
    pub buf: Vec<Log>,
}

impl Forwarder {
    pub fn new(agent_id: String, agent_name: String, batch_size: usize, flush_interval: u64) -> (f:
        Forwarder)
        ensures
            f.agent_id == agent_id,
            f.agent_name == agent_name,
            f.batch_size == batch_size,
            f.flush_interval == flush_interval,
            f.buf@ == Seq::<Log>::empty(),
    {
        Forwarder { agent_id, agent_name, batch_size, flush_interval, buf: Vec::new() }
    }

    /// Wrap the open batch for delivery: a fresh identifier, the send time,
    /// and the accumulated logs in arrival order; the accumulator empties.
    fn flush(&mut self, now: TimePoint) -> (batch: LogBatch)
        requires
            old(self).buf@.len() > 0,
        ensures
            final(self).agent_id == old(self).agent_id,
            final(self).agent_name == old(self).agent_name,
            final(self).batch_size == old(self).batch_size,
            final(self).flush_interval == old(self).flush_interval,
            final(self).buf@ == Seq::<Log>::empty(),
            batch.logs@ == old(self).buf@,
            batch.send_at == now,
            batch.agent_id@ == old(self).agent_id@,
            batch.agent_name@ == old(self).agent_name@,
            batch_id_wf(batch.batch_id@, old(self).agent_id@),
    {
        let mut logs: Vec<Log> = Vec::new();
        core::mem::swap(&mut logs, &mut self.buf);
        let batch_id = make_batch_id(&self.agent_id);
        LogBatch {
            agent_id: self.agent_id.clone(),
            agent_name: self.agent_name.clone(),
            batch_id,
            send_at: now,
            logs,
        }
    }

    /// Take one event into the open batch; flush immediately — without
    /// waiting for the timer — exactly when the batch reaches the configured
    /// size. A returned batch means the flush timer must restart now.
    pub fn on_event(&mut self, event: LogEvent, now: TimePoint) -> (r: Option<LogBatch>)
        ensures
            final(self).agent_id == old(self).agent_id,
            final(self).agent_name == old(self).agent_name,
            final(self).batch_size == old(self).batch_size,
            final(self).flush_interval == old(self).flush_interval,
            ({
                let stepped = fwd_step(
                    old(self).buf@,
                    old(self).batch_size as nat,
                    FwdInput::Event(log_of(event)),
                );
                &&& final(self).buf@ == stepped.0
                &&& (match r {
                    Some(b) => Some(b.logs@) == stepped.1 && b.send_at == now && b.agent_id@
                        == old(self).agent_id@ && b.agent_name@ == old(self).agent_name@
                        && batch_id_wf(b.batch_id@, old(self).agent_id@),
                    None => stepped.1 is None,
                })
            }),
    {
        let log = event_to_log(event);
        self.buf.push(log);
        if self.buf.len() >= self.batch_size {
            Some(self.flush(now))
        } else {
            None
        }
    }

    /// The flush interval elapsed: flush whatever is accumulated, even a
    /// partial batch; an empty accumulator is a no-op.
    pub fn on_tick(&mut self, now: TimePoint) -> (r: Option<LogBatch>)
        ensures
            final(self).agent_id == old(self).agent_id,
            final(self).agent_name == old(self).agent_name,
            final(self).batch_size == old(self).batch_size,
            final(self).flush_interval == old(self).flush_interval,
            ({
                let stepped = fwd_step(old(self).buf@, old(self).batch_size as nat, FwdInput::Tick);
                &&& final(self).buf@ == stepped.0
                &&& (match r {
                    Some(b) => Some(b.logs@) == stepped.1 && b.send_at == now && b.agent_id@
                        == old(self).agent_id@ && b.agent_name@ == old(self).agent_name@
                        && batch_id_wf(b.batch_id@, old(self).agent_id@),
                    None => stepped.1 is None,
                })
            }),
    {
        if self.buf.len() == 0 {
            None
        } else {
            Some(self.flush(now))
        }
    }

    /// The upstream channel closed: one final flush of any remainder.
    /// Behaves exactly like an elapsed timer; the caller terminates after it.
    pub fn on_close(&mut self, now: TimePoint) -> (r: Option<LogBatch>)
        ensures
            final(self).agent_id == old(self).agent_id,
            final(self).agent_name == old(self).agent_name,
            final(self).batch_size == old(self).batch_size,
            final(self).flush_interval == old(self).flush_interval,
            ({
                let stepped = fwd_step(old(self).buf@, old(self).batch_size as nat, FwdInput::Tick);
                &&& final(self).buf@ == stepped.0
                &&& (match r {
                    Some(b) => Some(b.logs@) == stepped.1 && b.send_at == now && b.agent_id@
                        == old(self).agent_id@ && b.agent_name@ == old(self).agent_name@
                        && batch_id_wf(b.batch_id@, old(self).agent_id@),
                    None => stepped.1 is None,
                })
            }),
    {
        self.on_tick(now)
    }
}

/// The events an input list carries, in arrival order.
pub open spec fn events_of_inputs(inputs: Seq<FwdInput>) -> Seq<Log>
    decreases inputs.len(),
{
    if inputs.len() == 0 {
        Seq::empty()
    } else {
        (match inputs.first() {
            FwdInput::Event(l) => seq![l],
            FwdInput::Tick => Seq::empty(),
        }) + events_of_inputs(inputs.drop_first())
    }
}

/// The flushed batches laid end to end, in flush order.
pub open spec fn concat_batches(batches: Seq<Seq<Log>>) -> Seq<Log>
    decreases batches.len(),
{
    if batches.len() == 0 {
        Seq::empty()
    } else {
        batches.first() + concat_batches(batches.drop_first())
    }
}

/// Conservation: whatever the forwarder is fed, the flushed batches laid
/// end to end, followed by what is still accumulating, are exactly the open
/// batch it started with followed by every event in arrival order — no
/// event is lost, duplicated or reordered.
pub proof fn lemma_forwarder_conserves_events(buf: Seq<Log>, size: nat, inputs: Seq<FwdInput>)
    ensures
        ({
            let run = fwd_run(buf, size, inputs);
            concat_batches(run.1) + run.0 == buf + events_of_inputs(inputs)
        }),
    decreases inputs.len(),
{
    if inputs.len() == 0 {
        let run = fwd_run(buf, size, inputs);
        assert(concat_batches(run.1) + run.0 =~= buf + events_of_inputs(inputs));
    } else {
        let stepped = fwd_step(buf, size, inputs.first());
        let rest = fwd_run(stepped.0, size, inputs.drop_first());
        lemma_forwarder_conserves_events(stepped.0, size, inputs.drop_first());
        let run = fwd_run(buf, size, inputs);
        match inputs.first() {
            FwdInput::Event(l) => {
                let b = buf.push(l);
                if b.len() >= size {
                    assert(run.1 == seq![b] + rest.1);
                    assert((seq![b] + rest.1).first() == b);
                    assert((seq![b] + rest.1).drop_first() =~= rest.1);
                    assert(concat_batches(run.1) == b + concat_batches(rest.1));
                    assert((b + concat_batches(rest.1)) + rest.0 =~= b + (concat_batches(rest.1)
                        + rest.0));
                    assert(b + events_of_inputs(inputs.drop_first()) =~= buf + (seq![l]
                        + events_of_inputs(inputs.drop_first())));
                } else {
                    assert(run.1 =~= rest.1);
                    assert(concat_batches(rest.1) + rest.0 == b + events_of_inputs(
                        inputs.drop_first(),
                    ));
                    assert(b + events_of_inputs(inputs.drop_first()) =~= buf + (seq![l]
                        + events_of_inputs(inputs.drop_first())));
                }
            },
            FwdInput::Tick => {
                if buf.len() == 0 {
                    assert(run.1 =~= rest.1);
                    assert(Seq::<Log>::empty() + events_of_inputs(inputs.drop_first())
                        =~= events_of_inputs(inputs.drop_first()));
                    assert(buf =~= Seq::<Log>::empty());
                    assert(buf + events_of_inputs(inputs) =~= events_of_inputs(
                        inputs.drop_first(),
                    ));
                } else {
                    assert(run.1 == seq![buf] + rest.1);
                    assert((seq![buf] + rest.1).first() == buf);
                    assert((seq![buf] + rest.1).drop_first() =~= rest.1);
                    assert(concat_batches(run.1) == buf + concat_batches(rest.1));
                    assert((buf + concat_batches(rest.1)) + rest.0 =~= buf + (concat_batches(
                        rest.1,
                    ) + rest.0));
                    assert(buf + events_of_inputs(inputs) =~= buf + events_of_inputs(
                        inputs.drop_first(),
                    ));
                }
            },
        }
    }
}

/// Filling an open batch below `size` with events flushes nothing until the
/// batch reaches `size`, and then flushes everything at once, in order.
proof fn lemma_fwd_run_fill(buf: Seq<Log>, size: nat, evs: Seq<Log>)
    requires
        buf.len() < size,
        buf.len() + evs.len() <= size,
    ensures
        ({
            let run = fwd_run(buf, size, as_events(evs));
            &&& buf.len() + evs.len() < size ==> run == (buf + evs, Seq::<Seq<Log>>::empty())
            &&& (buf.len() + evs.len() == size && evs.len() > 0) ==> run == (
                Seq::<Log>::empty(),
                seq![buf + evs],
            )
        }),
    decreases evs.len(),
{
    let inputs = as_events(evs);
    if evs.len() == 0 {
        assert(buf + evs =~= buf);
    } else {
        assert(inputs.first() == FwdInput::Event(evs.first()));
        assert(inputs.drop_first() =~= as_events(evs.drop_first()));
        let b = buf.push(evs.first());
        if b.len() >= size {
            assert(evs.len() == 1);
            assert(b =~= buf + evs);
            assert(fwd_run(Seq::<Log>::empty(), size, as_events(evs.drop_first())).1 =~= Seq::<
                Seq<Log>,
            >::empty());
            assert(seq![b] + Seq::<Seq<Log>>::empty() =~= seq![buf + evs]);
        } else {
            lemma_fwd_run_fill(b, size, evs.drop_first());
            assert(b + evs.drop_first() =~= buf + evs);
            let rest = fwd_run(b, size, as_events(evs.drop_first()));
            assert(Seq::<Seq<Log>>::empty() + rest.1 =~= rest.1);
        }
    }
}

/// Running one input list after another runs them in order and concatenates
/// their flushes.
proof fn lemma_fwd_run_append(buf: Seq<Log>, size: nat, a: Seq<FwdInput>, b: Seq<FwdInput>)
    ensures
        fwd_run(buf, size, a + b) == ({
            let ra = fwd_run(buf, size, a);
            let rb = fwd_run(ra.0, size, b);
            (rb.0, ra.1 + rb.1)
        }),
    decreases a.len(),
{
    if a.len() == 0 {
        assert(a + b =~= b);
        let rb = fwd_run(buf, size, b);
        assert(Seq::<Seq<Log>>::empty() + rb.1 =~= rb.1);
    } else {
        assert((a + b).first() == a.first());
        assert((a + b).drop_first() =~= a.drop_first() + b);
        let stepped = fwd_step(buf, size, a.first());
        lemma_fwd_run_append(stepped.0, size, a.drop_first(), b);
        let ra1 = fwd_run(stepped.0, size, a.drop_first());
        let rb = fwd_run(ra1.0, size, b);
        let first_flush = (match stepped.1 {
            Some(x) => seq![x],
            None => Seq::<Seq<Log>>::empty(),
        });
        assert(first_flush + (ra1.1 + rb.1) =~= (first_flush + ra1.1) + rb.1);
    }
}

/// Batch sizing: starting empty, exactly `size` events — with no elapsed
/// flush interval — yield exactly one flushed batch, holding exactly those
/// events in order, and leave the accumulator empty.
pub proof fn lemma_batch_sizing(size: nat, events: Seq<Log>)
    requires
        0 < size,
        events.len() == size,
    ensures
        fwd_run(Seq::empty(), size, as_events(events)) == (Seq::<Log>::empty(), seq![events]),
{
    lemma_fwd_run_fill(Seq::empty(), size, events);
    assert(Seq::empty() + events =~= events);
}

/// Batch timing: starting empty, fewer events than the batch size followed
/// by an elapsed flush interval yield exactly one flushed batch, holding
/// exactly those events in order.
pub proof fn lemma_batch_timing(size: nat, events: Seq<Log>)
    requires
        0 < events.len() < size,
    ensures
        fwd_run(Seq::empty(), size, as_events(events) + seq![FwdInput::Tick]) == (
            Seq::<Log>::empty(),
            seq![events],
        ),
{
    lemma_fwd_run_fill(Seq::empty(), size, events);
    lemma_fwd_run_append(Seq::empty(), size, as_events(events), seq![FwdInput::Tick]);
    assert(Seq::empty() + events =~= events);
    let ra = fwd_run(Seq::empty(), size, as_events(events));
    assert(ra == (events, Seq::<Seq<Log>>::empty()));
    let tick_inputs = seq![FwdInput::Tick];
    assert(tick_inputs.first() == FwdInput::Tick);
    assert(tick_inputs.drop_first() =~= Seq::<FwdInput>::empty());
    let stepped = fwd_step(events, size, FwdInput::Tick);
    assert(stepped == (Seq::<Log>::empty(), Some(events)));
    assert(fwd_run(Seq::<Log>::empty(), size, Seq::<FwdInput>::empty()) == (
        Seq::<Log>::empty(),
        Seq::<Seq<Log>>::empty(),
    ));
    let rb = fwd_run(events, size, tick_inputs);
    assert(rb.1 == seq![events] + Seq::<Seq<Log>>::empty());
    assert(rb.1 =~= seq![events]);
    assert(Seq::<Seq<Log>>::empty() + rb.1 =~= rb.1);
}

} // verus!
