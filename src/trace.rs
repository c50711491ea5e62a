//! Hash-chained execution traces.
//!
//! A trace starts with a `trace.begin` entry whose hash covers the agent,
//! the intent and the start time. Every later entry carries its
//! predecessor's hash and a hash of that hash, its event type, its payload
//! and its time, so that changing any entry breaks the chain. `end_trace`
//! closes a trace with a `trace.end` entry and removes it from the active
//! set; a closed trace receives no further entries.
use vstd::prelude::*;
use vstd::string::*;
use crate::clock::unix_now;
use crate::digest::{is_digest_text, sha3_hex, sha3_hex_of};
use crate::json::{canonical, decimal, push_decimal, push_text, utf8, JsonValue};
use crate::text::text_eq;

verus! {

broadcast use vstd::std_specs::vec::group_vec_axioms, vstd::seq::group_seq_axioms;

/// One event of a trace.
#[derive(Debug)]
pub struct TraceEntry {
    pub id: String,
    pub agent_id: String,
    pub event_type: String,
    pub data: JsonValue,
    pub timestamp: i64,
    pub prev_hash: Option<String>,
    pub hash: String,
}

/// Status of a trace.
#[derive(Debug, Clone, Copy, PartialEq, Eq, Structural)]
pub enum TraceStatus {
    Active,
    Completed,
    Failed,
}

/// One trace: its context and its entries in order of arrival.
#[derive(Debug)]
pub struct TraceRecord {
    pub id: String,
    pub agent_id: String,
    pub intent: String,
    pub start_time: i64,
    pub status: TraceStatus,
    pub entries: Vec<TraceEntry>,
}

/// Bytes hashed for the first entry: `agent_id:intent:time`.
pub open spec fn begin_input(agent_id: Seq<char>, intent: Seq<char>, now: i64) -> Seq<u8> {
    utf8(agent_id) + seq![0x3au8] + utf8(intent) + seq![0x3au8] + decimal(now as int)
}

/// Bytes hashed for a later entry: `prev:event_type:payload:time`.
pub open spec fn event_input(prev: Seq<char>, event_type: Seq<char>, data: JsonValue, now: i64) -> Seq<u8> {
    utf8(prev) + seq![0x3au8] + utf8(event_type) + seq![0x3au8] + canonical(data) + seq![0x3au8]
        + decimal(now as int)
}

/// The hash of the first entry of a trace.
pub open spec fn begin_hash(agent_id: Seq<char>, intent: Seq<char>, now: i64) -> Seq<char> {
    sha3_hex_of(begin_input(agent_id, intent, now))
}

/// The hash of a later entry.
pub open spec fn event_hash(prev: Seq<char>, event_type: Seq<char>, data: JsonValue, now: i64) -> Seq<char> {
    sha3_hex_of(event_input(prev, event_type, data, now))
}

/// The id of a trace whose first entry has this hash.
pub open spec fn trace_id_of(initial_hash: Seq<char>) -> Seq<char> {
    "trace_"@ + initial_hash.subrange(0, 16)
}

/// Entry `i` links to entry `i - 1` and its hash is recomputed from its
/// inputs.
pub open spec fn linked(e: Seq<TraceEntry>, i: int) -> bool {
    &&& e[i].prev_hash matches Some(p) && p@ == e[i - 1].hash@
    &&& e[i].hash@ == event_hash(e[i - 1].hash@, e[i].event_type@, e[i].data, e[i].timestamp)
}

/// The shape every trace keeps: a first `trace.begin` entry hashed from the
/// trace's agent, intent and start time; every later entry linked to its
/// predecessor; all entries under the trace's id and agent; and a trace that
/// is no longer active ends with its `trace.end` entry.
pub open spec fn chain_ok(t: TraceRecord) -> bool {
    let e = t.entries@;
    &&& e.len() >= 1
    &&& e[0].event_type@ == "trace.begin"@
    &&& e[0].prev_hash is None
    &&& e[0].timestamp == t.start_time
    &&& e[0].hash@ == begin_hash(t.agent_id@, t.intent@, t.start_time)
    &&& is_digest_text(e[0].hash@)
    &&& t.id@ == trace_id_of(e[0].hash@)
    &&& forall|i: int| 1 <= i < e.len() ==> #[trigger] linked(e, i)
    &&& forall|i: int| 0 <= i < e.len() ==> (#[trigger] e[i]).id@ == t.id@ && e[i].agent_id@ == t.agent_id@
    &&& t.status != TraceStatus::Active ==> e.last().event_type@ == "trace.end"@
}

/// Entries of all traces with id `id`, trace by trace.
pub open spec fn entries_with_id(traces: Seq<TraceRecord>, id: Seq<char>) -> Seq<TraceEntry>
    decreases traces.len(),
{
    if traces.len() == 0 {
        Seq::empty()
    } else {
        entries_with_id(traces.drop_last(), id) + if traces.last().id@ == id {
            traces.last().entries@
        } else {
            Seq::empty()
        }
    }
}

/// Which traces a search picks: those of an agent, or those with an id.
pub enum Pick {
    Agent(Seq<char>),
    Id(Seq<char>),
}

pub open spec fn picks(t: TraceRecord, pick: Pick) -> bool {
    match pick {
        Pick::Agent(a) => t.agent_id@ == a,
        Pick::Id(i) => t.id@ == i,
    }
}

/// Index of the latest active trace that `pick` selects.
pub open spec fn latest_active(traces: Seq<TraceRecord>, pick: Pick) -> Option<int>
    decreases traces.len(),
{
    if traces.len() == 0 {
        None
    } else if traces.last().status == TraceStatus::Active && picks(traces.last(), pick) {
        Some(traces.len() - 1)
    } else {
        latest_active(traces.drop_last(), pick)
    }
}

/// Every trace of `before` is still there, and one that had ended is
/// unchanged: an ended trace receives no further entries.
pub open spec fn ended_kept(before: Seq<TraceRecord>, after: Seq<TraceRecord>) -> bool {
    &&& before.len() <= after.len()
    &&& forall|k: int| 0 <= k < before.len() && (#[trigger] before[k]).status != TraceStatus::Active ==> after[k] == before[k]
}

/// Some trace of the agent ends with an entry of this type and time.
pub open spec fn recorded(traces: Seq<TraceRecord>, agent_id: Seq<char>, event_type: Seq<char>, now: i64) -> bool {
    exists|k: int|
        0 <= k < traces.len() && (#[trigger] traces[k]).agent_id@ == agent_id && traces[k].entries@.last().event_type@
            == event_type && traces[k].entries@.last().timestamp == now
}

/// The payload of a `trace.begin` entry: `{intent, timestamp}`.
pub open spec fn begin_payload(data: JsonValue, intent: Seq<char>, now: i64) -> bool {
    match data {
        JsonValue::Object(m) => {
            &&& m@.len() == 2
            &&& m@[0].0@ == "intent"@ && (m@[0].1 matches JsonValue::Str(s) && s@ == intent)
            &&& m@[1].0@ == "timestamp"@ && m@[1].1 == JsonValue::Int(now)
        },
        _ => false,
    }
}

/// `after` is `before` with a new active trace of `agent_id` for `intent`
/// begun at `now`: its id comes from its begin hash and it holds its begin
/// entry alone. The earlier traces are unchanged.
pub open spec fn began(before: Seq<TraceRecord>, after: Seq<TraceRecord>, agent_id: Seq<char>, intent: Seq<char>, now: i64) -> bool {
    &&& after.len() == before.len() + 1
    &&& after.subrange(0, before.len() as int) == before
    &&& after.last().id@ == trace_id_of(begin_hash(agent_id, intent, now))
    &&& after.last().agent_id@ == agent_id
    &&& after.last().intent@ == intent
    &&& after.last().start_time == now
    &&& after.last().status == TraceStatus::Active
    &&& after.last().entries@.len() == 1
    &&& begin_payload(after.last().entries@[0].data, intent, now)
}

/// `after` is `before` with trace `k` given one more entry, of this type and
/// time, and this status; every other trace, and the trace's context, are
/// unchanged.
pub open spec fn extended(
    before: Seq<TraceRecord>,
    after: Seq<TraceRecord>,
    k: int,
    event_type: Seq<char>,
    now: i64,
    status: TraceStatus,
) -> bool {
    &&& 0 <= k < before.len()
    &&& after.len() == before.len()
    &&& forall|j: int| 0 <= j < before.len() && j != k ==> after[j] == before[j]
    &&& after[k].id == before[k].id
    &&& after[k].agent_id == before[k].agent_id
    &&& after[k].intent == before[k].intent
    &&& after[k].start_time == before[k].start_time
    &&& after[k].status == status
    &&& after[k].entries@.drop_last() == before[k].entries@
    &&& after[k].entries@.len() == before[k].entries@.len() + 1
    &&& after[k].entries@.last().event_type@ == event_type
    &&& after[k].entries@.last().timestamp == now
}

/// What recording an event does: the agent's latest active trace gains an
/// entry with this type, payload and time; without one, a `general` trace is
/// begun and gains it.
pub open spec fn record_effect(
    before: Seq<TraceRecord>,
    after: Seq<TraceRecord>,
    agent_id: Seq<char>,
    event_type: Seq<char>,
    data: JsonValue,
    now: i64,
) -> bool {
    match latest_active(before, Pick::Agent(agent_id)) {
        Some(k) => extended(before, after, k, event_type, now, before[k].status) && after[k].entries@.last().data
            == data,
        None => {
            &&& after.len() == before.len() + 1
            &&& after.subrange(0, before.len() as int) == before
            &&& after.last().id@ == trace_id_of(begin_hash(agent_id, "general"@, now))
            &&& after.last().agent_id@ == agent_id
            &&& after.last().intent@ == "general"@
            &&& after.last().start_time == now
            &&& after.last().status == TraceStatus::Active
            &&& after.last().entries@.len() == 2
            &&& begin_payload(after.last().entries@[0].data, "general"@, now)
            &&& after.last().entries@.last().event_type@ == event_type
            &&& after.last().entries@.last().data == data
            &&& after.last().entries@.last().timestamp == now
        },
    }
}

/// The entry a recording adds ends some trace of the agent.
pub proof fn lemma_recorded_entry(
    before: Seq<TraceRecord>,
    after: Seq<TraceRecord>,
    agent_id: Seq<char>,
    event_type: Seq<char>,
    data: JsonValue,
    now: i64,
)
    requires
        record_effect(before, after, agent_id, event_type, data, now),
    ensures
        exists|k: int|
            0 <= k < after.len() && (#[trigger] after[k]).agent_id@ == agent_id && after[k].entries@.last().event_type@
                == event_type && after[k].entries@.last().data == data && after[k].entries@.last().timestamp == now,
{
    lemma_latest_active_props(before, Pick::Agent(agent_id));
    match latest_active(before, Pick::Agent(agent_id)) {
        Some(k) => {
            assert(after[k].agent_id@ == agent_id);
        },
        None => {
            let k = after.len() - 1;
            assert(after[k] == after.last());
        },
    }
}

/// The payload of a `trace.end` entry: `{success, duration_ms}`, then
/// `result` when one is given.
pub open spec fn end_payload(data: JsonValue, success: bool, duration: i64, result: Option<JsonValue>) -> bool {
    match data {
        JsonValue::Object(m) => {
            &&& m@.len() == if result is Some {
                3int
            } else {
                2int
            }
            &&& m@[0].0@ == "success"@ && m@[0].1 == JsonValue::Bool(success)
            &&& m@[1].0@ == "duration_ms"@ && m@[1].1 == JsonValue::Int(duration)
            &&& result matches Some(v) ==> m@[2].0@ == "result"@ && m@[2].1 == v
        },
        _ => false,
    }
}

/// What ending trace `k` at `now` does: it gains its `trace.end` entry with
/// the end payload and takes the status the outcome calls for.
pub open spec fn end_effect(
    before: Seq<TraceRecord>,
    after: Seq<TraceRecord>,
    k: int,
    success: bool,
    result: Option<JsonValue>,
    now: i64,
) -> bool {
    &&& extended(before, after, k, "trace.end"@, now, if success {
        TraceStatus::Completed
    } else {
        TraceStatus::Failed
    })
    &&& end_payload(after[k].entries@.last().data, success, duration_ms(before[k].start_time, now), result)
}

/// Summary of a trace: its id, agent, number of entries and the hash of the
/// last entry, taken at `timestamp`.
#[derive(Debug)]
pub struct TraceProof {
    pub trace_id: String,
    pub agent_id: String,
    pub entries: usize,
    pub root_hash: String,
    pub timestamp: i64,
}

/// The tracer: every trace begun, in order.
pub struct PoseidonTracer {
    traces: Vec<TraceRecord>,
}

impl View for PoseidonTracer {
    type V = Seq<TraceRecord>;

    closed spec fn view(&self) -> Seq<TraceRecord> {
        self.traces@
    }
}

proof fn lemma_latest_active_props(traces: Seq<TraceRecord>, pick: Pick)
    ensures
        latest_active(traces, pick) matches Some(k) ==> 0 <= k < traces.len() && traces[k].status
            == TraceStatus::Active && picks(traces[k], pick),
    decreases traces.len(),
{
    if traces.len() > 0 && !(traces.last().status == TraceStatus::Active && picks(traces.last(), pick)) {
        lemma_latest_active_props(traces.drop_last(), pick);
    }
}

proof fn lemma_entries_with_id_grows(traces: Seq<TraceRecord>, id: Seq<char>, j: int)
    requires
        0 <= j <= traces.len(),
    ensures
        entries_with_id(traces.subrange(0, j), id).len() <= entries_with_id(traces, id).len(),
    decreases traces.len(),
{
    if j < traces.len() {
        lemma_entries_with_id_grows(traces.drop_last(), id, j);
        assert(traces.drop_last().subrange(0, j) =~= traces.subrange(0, j));
    } else {
        assert(traces.subrange(0, j) =~= traces);
    }
}

/// Pushes `:` and the decimal time.
fn push_colon_time(out: &mut Vec<u8>, now: i64)
    ensures
        final(out)@ == old(out)@ + seq![0x3au8] + decimal(now as int),
{
    out.push(0x3a);
    push_decimal(out, now);
    assert(final(out)@ =~= old(out)@ + seq![0x3au8] + decimal(now as int));
}

fn compute_begin_hash(agent_id: &str, intent: &str, now: i64) -> (r: String)
    ensures
        r@ == begin_hash(agent_id@, intent@, now),
        is_digest_text(r@),
{
    let mut bytes: Vec<u8> = Vec::new();
    push_text(&mut bytes, agent_id);
    bytes.push(0x3a);
    push_text(&mut bytes, intent);
    push_colon_time(&mut bytes, now);
    assert(bytes@ =~= begin_input(agent_id@, intent@, now));
    sha3_hex(bytes.as_slice())
}

fn compute_event_hash(prev: &str, event_type: &str, data: &JsonValue, now: i64) -> (r: String)
    ensures
        r@ == event_hash(prev@, event_type@, *data, now),
{
    let mut bytes: Vec<u8> = Vec::new();
    push_text(&mut bytes, prev);
    bytes.push(0x3a);
    push_text(&mut bytes, event_type);
    bytes.push(0x3a);
    data.encode_into(&mut bytes);
    push_colon_time(&mut bytes, now);
    assert(bytes@ =~= event_input(prev@, event_type@, *data, now));
    sha3_hex(bytes.as_slice())
}

/// `(now - start) * 1000`, held to the range of `i64`.
pub open spec fn duration_ms(start: i64, now: i64) -> i64 {
    let d = (now - start) * 1000;
    if d > i64::MAX {
        i64::MAX
    } else if d < i64::MIN {
        i64::MIN
    } else {
        d as i64
    }
}

fn compute_duration_ms(start: i64, now: i64) -> (r: i64)
    ensures
        r == duration_ms(start, now),
{
    let d: i128 = (now as i128 - start as i128) * 1000;
    if d > i64::MAX as i128 {
        i64::MAX
    } else if d < i64::MIN as i128 {
        i64::MIN
    } else {
        d as i64
    }
}

impl PoseidonTracer {
    /// Every trace keeps its chain shape.
    pub open spec fn wf(&self) -> bool {
        forall|k: int| 0 <= k < self@.len() ==> chain_ok(#[trigger] self@[k])
    }

    /// An empty tracer.
    pub fn new() -> (r: PoseidonTracer)
        ensures
            r.wf(),
            r@.len() == 0,
    {
        PoseidonTracer { traces: Vec::new() }
    }

    /// Every trace begun, in order.
    pub fn traces(&self) -> (r: &Vec<TraceRecord>)
        ensures
            r@ == self@,
    {
        &self.traces
    }

    /// Index of the latest active trace with this id.
    fn find_active(&self, trace_id: &str) -> (r: Option<usize>)
        ensures
            match r {
                Some(k) => latest_active(self@, Pick::Id(trace_id@)) == Some(k as int),
                None => latest_active(self@, Pick::Id(trace_id@)) is None,
            },
    {
        let ghost pick = Pick::Id(trace_id@);
        let mut i: usize = self.traces.len();
        assert(self@.subrange(0, i as int) =~= self@);
        while i > 0
            invariant
                pick == Pick::Id(trace_id@),
                0 <= i <= self@.len(),
                self@ == self.traces@,
                latest_active(self@, pick) == latest_active(self@.subrange(0, i as int), pick),
            decreases i,
        {
            let ghost pre = self@.subrange(0, i as int);
            assert(pre.drop_last() =~= self@.subrange(0, i - 1));
            assert(pre.last() == self@[i - 1]);
            i = i - 1;
            let t = &self.traces[i];
            if t.status == TraceStatus::Active && text_eq(t.id.as_str(), trace_id) {
                assert(picks(pre.last(), pick));
                assert(latest_active(pre, pick) == Some(i as int));
                return Some(i);
            }
            assert(!(pre.last().status == TraceStatus::Active && picks(pre.last(), pick)));
        }
        None
    }

    /// Index of the latest active trace of an agent.
    fn find_active_for_agent(&self, agent_id: &str) -> (r: Option<usize>)
        ensures
            match r {
                Some(k) => latest_active(self@, Pick::Agent(agent_id@)) == Some(k as int),
                None => latest_active(self@, Pick::Agent(agent_id@)) is None,
            },
    {
        let ghost pick = Pick::Agent(agent_id@);
        let mut i: usize = self.traces.len();
        assert(self@.subrange(0, i as int) =~= self@);
        while i > 0
            invariant
                pick == Pick::Agent(agent_id@),
                0 <= i <= self@.len(),
                self@ == self.traces@,
                latest_active(self@, pick) == latest_active(self@.subrange(0, i as int), pick),
            decreases i,
        {
            let ghost pre = self@.subrange(0, i as int);
            assert(pre.drop_last() =~= self@.subrange(0, i - 1));
            assert(pre.last() == self@[i - 1]);
            i = i - 1;
            let t = &self.traces[i];
            if t.status == TraceStatus::Active && text_eq(t.agent_id.as_str(), agent_id) {
                assert(picks(pre.last(), pick));
                assert(latest_active(pre, pick) == Some(i as int));
                return Some(i);
            }
            assert(!(pre.last().status == TraceStatus::Active && picks(pre.last(), pick)));
        }
        None
    }

    /// Begins a trace at time `now`: appends a new active trace whose only
    /// entry is its `trace.begin` entry, and returns its id.
    pub fn begin_trace_at(&mut self, agent_id: &str, intent: &str, now: i64) -> (r: Result<String, String>)
        requires
            old(self).wf(),
        ensures
            final(self).wf(),
            r matches Ok(id) && id@ == trace_id_of(begin_hash(agent_id@, intent@, now)),
            began(old(self)@, final(self)@, agent_id@, intent@, now),
            ended_kept(old(self)@, final(self)@),
    {
        let initial_hash = compute_begin_hash(agent_id, intent, now);
        proof {
            assert(vstd::utf8::is_ascii_chars(initial_hash@)) by {
                assert forall|i: int| 0 <= i < initial_hash@.len() implies '\0' <= #[trigger] initial_hash@[i] <= '\u{7f}' by {
                    assert(crate::digest::is_hex_char(initial_hash@[i]));
                }
            }
        }
        let mut trace_id = String::from_str("trace_");
        trace_id.append(initial_hash.as_str().substring_ascii(0, 16));
        let mut data_members: Vec<(String, JsonValue)> = Vec::new();
        data_members.push((String::from_str("intent"), JsonValue::Str(intent.to_owned())));
        data_members.push((String::from_str("timestamp"), JsonValue::Int(now)));
        let entry = TraceEntry {
            id: trace_id.clone(),
            agent_id: agent_id.to_owned(),
            event_type: String::from_str("trace.begin"),
            data: JsonValue::Object(data_members),
            timestamp: now,
            prev_hash: None,
            hash: initial_hash,
        };
        let mut entries: Vec<TraceEntry> = Vec::new();
        entries.push(entry);
        let record = TraceRecord {
            id: trace_id.clone(),
            agent_id: agent_id.to_owned(),
            intent: intent.to_owned(),
            start_time: now,
            status: TraceStatus::Active,
            entries,
        };
        proof {
            reveal_strlit("trace_");
        }
        assert(chain_ok(record));
        assert(begin_payload(record.entries@[0].data, intent@, now));
        let ghost before = self.traces@;
        self.traces.push(record);
        proof {
            assert(self.traces@.subrange(0, before.len() as int) =~= before);
            assert forall|k: int| 0 <= k < self@.len() implies chain_ok(#[trigger] self@[k]) by {
                if k < before.len() {
                    assert(before == old(self)@);
                    assert(chain_ok(old(self)@[k]));
                    assert(self@[k] == before[k]);
                } else {
                    assert(self@[k] == record);
                }
            }
        }
        Ok(trace_id)
    }

    /// Begins a trace now.
    pub fn begin_trace(&mut self, agent_id: &str, intent: &str) -> (r: Result<String, String>)
        requires
            old(self).wf(),
        ensures
            final(self).wf(),
            r matches Ok(id) && id@ == final(self)@.last().id@,
            exists|t: i64| began(old(self)@, final(self)@, agent_id@, intent@, t),
            ended_kept(old(self)@, final(self)@),
    {
        let now = unix_now();
        self.begin_trace_at(agent_id, intent, now)
    }

    /// Appends an entry to trace `k`, linked to its last entry.
    fn append_entry(&mut self, k: usize, event_type: &str, data: JsonValue, now: i64)
        requires
            old(self).wf(),
            k < old(self)@.len(),
            old(self)@[k as int].status == TraceStatus::Active,
        ensures
            final(self)@.len() == old(self)@.len(),
            forall|j: int| 0 <= j < old(self)@.len() && j != k ==> final(self)@[j] == old(self)@[j],
            final(self)@[k as int].id == old(self)@[k as int].id,
            final(self)@[k as int].agent_id == old(self)@[k as int].agent_id,
            final(self)@[k as int].intent == old(self)@[k as int].intent,
            final(self)@[k as int].start_time == old(self)@[k as int].start_time,
            final(self)@[k as int].status == old(self)@[k as int].status,
            final(self)@[k as int].entries@.len() == old(self)@[k as int].entries@.len() + 1,
            final(self)@[k as int].entries@.drop_last() == old(self)@[k as int].entries@,
            final(self)@[k as int].entries@.last().event_type@ == event_type@,
            final(self)@[k as int].entries@.last().data == data,
            final(self)@[k as int].entries@.last().timestamp == now,
            chain_ok(final(self)@[k as int]) || old(self)@[k as int].status != TraceStatus::Active,
            linked(final(self)@[k as int].entries@, old(self)@[k as int].entries@.len() as int),
    {
        let ghost old_t = self@[k as int];
        assert(chain_ok(old_t));
        let n = self.traces[k].entries.len();
        let prev = self.traces[k].entries[n - 1].hash.clone();
        let hash = compute_event_hash(prev.as_str(), event_type, &data, now);
        let entry = TraceEntry {
            id: self.traces[k].id.clone(),
            agent_id: self.traces[k].agent_id.clone(),
            event_type: event_type.to_owned(),
            data,
            timestamp: now,
            prev_hash: Some(prev),
            hash,
        };
        self.traces[k].entries.push(entry);
        proof {
            let t = self@[k as int];
            let e = t.entries@;
            assert(e.drop_last() =~= old_t.entries@);
            assert(linked(e, n as int));
            assert forall|i: int| 1 <= i < e.len() implies #[trigger] linked(e, i) by {
                if i < n {
                    assert(linked(old_t.entries@, i));
                }
            }
            assert forall|i: int| 0 <= i < e.len() implies (#[trigger] e[i]).id@ == t.id@ && e[i].agent_id@ == t.agent_id@ by {
                if i < n {
                    assert(e[i] == old_t.entries@[i]);
                }
            }
        }
    }

    /// Records an event for an agent at time `now`, in its latest active
    /// trace; without one, a trace with intent `general` is begun first.
    pub fn record_event_at(&mut self, agent_id: &str, event_type: &str, data: JsonValue, now: i64) -> (r: Result<(), String>)
        requires
            old(self).wf(),
        ensures
            final(self).wf(),
            r is Ok,
            record_effect(old(self)@, final(self)@, agent_id@, event_type@, data, now),
            recorded(final(self)@, agent_id@, event_type@, now),
            ended_kept(old(self)@, final(self)@),
    {
        let k = match self.find_active_for_agent(agent_id) {
            Some(k) => {
                proof {
                    lemma_latest_active_props(self@, Pick::Agent(agent_id@));
                }
                assert(self@[k as int].status == TraceStatus::Active);
                k
            },
            None => {
                let _ = self.begin_trace_at(agent_id, "general", now);
                assert(self@[self@.len() - 1] == self@.last());
                self.traces.len() - 1
            },
        };
        let ghost mid = self@;
        assert(chain_ok(mid[k as int]));
        assert(mid[k as int].agent_id@ == agent_id@) by {
            if latest_active(old(self)@, Pick::Agent(agent_id@)) is None {
                assert(mid.last() == mid[k as int]);
            }
        }
        self.append_entry(k, event_type, data, now);
        assert(self@[k as int].agent_id@ == agent_id@);
        assert(ended_kept(old(self)@, mid)) by {
            if latest_active(old(self)@, Pick::Agent(agent_id@)) is None {
                assert forall|j: int| 0 <= j < old(self)@.len() && (#[trigger] old(self)@[j]).status != TraceStatus::Active implies mid[j] == old(self)@[j] by {
                    assert(mid.subrange(0, old(self)@.len() as int)[j] == mid[j]);
                }
            }
        }
        proof {
            assert forall|j: int| 0 <= j < self@.len() implies chain_ok(#[trigger] self@[j]) by {
                if j != k {
                    assert(self@[j] == mid[j]);
                }
            }
            if latest_active(old(self)@, Pick::Agent(agent_id@)) is None {
                let n = old(self)@.len();
                assert(k == n);
                assert forall|j: int| 0 <= j < n implies self@.subrange(0, n as int)[j] == old(self)@[j] by {
                    assert(self@[j] == mid[j]);
                    assert(mid.subrange(0, n as int)[j] == mid[j]);
                }
                assert(self@.subrange(0, n as int) =~= old(self)@);
                assert(self@.last() == self@[k as int]);
                assert(mid.last() == mid[k as int]);
                assert(self@.last().entries@[0] == self@.last().entries@.drop_last()[0]);
            }
        }
        Ok(())
    }

    /// Records an event now.
    pub fn record_event(&mut self, agent_id: &str, event_type: &str, data: JsonValue) -> (r: Result<(), String>)
        requires
            old(self).wf(),
        ensures
            final(self).wf(),
            r is Ok,
            exists|t: i64| record_effect(old(self)@, final(self)@, agent_id@, event_type@, data, t),
            exists|t: i64| recorded(final(self)@, agent_id@, event_type@, t),
            ended_kept(old(self)@, final(self)@),
    {
        let now = unix_now();
        self.record_event_at(agent_id, event_type, data, now)
    }

    /// Ends the latest active trace with this id at time `now`: appends its
    /// `trace.end` entry with `{success, duration_ms, result?}` and marks it
    /// completed or failed. Fails when no active trace has this id.
    pub fn end_trace_at(&mut self, trace_id: &str, success: bool, result: Option<JsonValue>, now: i64) -> (r: Result<(), String>)
        requires
            old(self).wf(),
        ensures
            final(self).wf(),
            r is Ok <==> latest_active(old(self)@, Pick::Id(trace_id@)) is Some,
            r is Err ==> final(self)@ == old(self)@,
            final(self)@.len() == old(self)@.len(),
            ended_kept(old(self)@, final(self)@),
            r is Ok ==> end_effect(old(self)@, final(self)@, latest_active(old(self)@, Pick::Id(trace_id@))->0, success, result, now),
    {
        let k = match self.find_active(trace_id) {
            Some(k) => k,
            None => {
                let mut msg = String::from_str("Trace not found: ");
                msg.append(trace_id);
                return Err(msg);
            },
        };
        proof {
            lemma_latest_active_props(self@, Pick::Id(trace_id@));
        }
        assert(self@[k as int].status == TraceStatus::Active);
        let duration = compute_duration_ms(self.traces[k].start_time, now);
        let mut members: Vec<(String, JsonValue)> = Vec::new();
        members.push((String::from_str("success"), JsonValue::Bool(success)));
        members.push((String::from_str("duration_ms"), JsonValue::Int(duration)));
        match result {
            Some(v) => {
                members.push((String::from_str("result"), v));
            },
            None => {},
        }
        let ghost before = self@;
        self.append_entry(k, "trace.end", JsonValue::Object(members), now);
        let ghost mid = self@;
        self.traces[k].status = if success {
            TraceStatus::Completed
        } else {
            TraceStatus::Failed
        };
        proof {
            assert(chain_ok(mid[k as int]));
            assert(self@[k as int].entries == mid[k as int].entries);
            assert(chain_ok(self@[k as int]));
            assert forall|j: int| 0 <= j < self@.len() implies chain_ok(#[trigger] self@[j]) by {
                if j != k {
                    assert(self@[j] == before[j]);
                }
            }
        }
        Ok(())
    }

    /// Ends a trace now.
    pub fn end_trace(&mut self, trace_id: &str, success: bool, result: Option<JsonValue>) -> (r: Result<(), String>)
        requires
            old(self).wf(),
        ensures
            final(self).wf(),
            r is Ok <==> latest_active(old(self)@, Pick::Id(trace_id@)) is Some,
            r is Err ==> final(self)@ == old(self)@,
            ended_kept(old(self)@, final(self)@),
            r is Ok ==> exists|t: i64| end_effect(old(self)@, final(self)@, latest_active(old(self)@, Pick::Id(trace_id@))->0, success, result, t),
    {
        let now = unix_now();
        self.end_trace_at(trace_id, success, result, now)
    }

    /// Summarises the entries of every trace with this id, in order, at time
    /// `now`. Fails when there are none.
    pub fn export_zk_proof_at(&self, trace_id: &str, now: i64) -> (r: Result<TraceProof, String>)
        requires
            self.wf(),
        ensures
            r is Ok <==> 0 < entries_with_id(self@, trace_id@).len() <= usize::MAX,
            r matches Ok(p) ==> ({
                let e = entries_with_id(self@, trace_id@);
                &&& p.trace_id@ == trace_id@
                &&& p.agent_id@ == e[0].agent_id@
                &&& p.entries == e.len()
                &&& p.root_hash@ == e.last().hash@
                &&& p.timestamp == now
            }),
    {
        let mut count: usize = 0;
        let mut first: Option<usize> = None;
        let mut last: Option<usize> = None;
        let mut i: usize = 0;
        while i < self.traces.len()
            invariant
                0 <= i <= self@.len(),
                self@ == self.traces@,
                self.wf(),
                count as int == entries_with_id(self@.subrange(0, i as int), trace_id@).len(),
                first is Some <==> count > 0,
                last is Some <==> count > 0,
                first matches Some(f) ==> f < i && self@[f as int].id@ == trace_id@
                    && entries_with_id(self@.subrange(0, i as int), trace_id@)[0] == self@[f as int].entries@[0],
                last matches Some(l) ==> l < i && self@[l as int].id@ == trace_id@
                    && entries_with_id(self@.subrange(0, i as int), trace_id@).last() == self@[l as int].entries@.last(),
            decreases self@.len() - i,
        {
            let ghost pre = self@.subrange(0, i as int);
            let ghost next = self@.subrange(0, i + 1);
            assert(next.drop_last() =~= pre);
            let t = &self.traces[i];
            assert(chain_ok(self@[i as int]));
            if text_eq(t.id.as_str(), trace_id) {
                let n = t.entries.len();
                if n > usize::MAX - count {
                    proof {
                        assert(entries_with_id(next, trace_id@).len() == count + n);
                        lemma_entries_with_id_grows(self@, trace_id@, i + 1);
                    }
                    return Err(String::from_str("Trace holds more entries than can be counted"));
                }
                count = count + n;
                if first.is_none() {
                    first = Some(i);
                }
                last = Some(i);
                proof {
                    let a = entries_with_id(pre, trace_id@);
                    let b = self@[i as int].entries@;
                    assert(entries_with_id(next, trace_id@) == a + b);
                    if a.len() > 0 {
                        assert((a + b)[0] == a[0]);
                    } else {
                        assert(a + b =~= b);
                    }
                    assert((a + b).last() == b.last());
                }
            } else {
                proof {
                    assert(entries_with_id(next, trace_id@) =~= entries_with_id(pre, trace_id@));
                }
            }
            i = i + 1;
        }
        assert(self@.subrange(0, self@.len() as int) =~= self@);
        match (first, last) {
            (Some(f), Some(l)) => {
                let e_first = &self.traces[f].entries[0];
                let l_entries = &self.traces[l].entries;
                let e_last = &l_entries[l_entries.len() - 1];
                Ok(
                    TraceProof {
                        trace_id: trace_id.to_owned(),
                        agent_id: e_first.agent_id.clone(),
                        entries: count,
                        root_hash: e_last.hash.clone(),
                        timestamp: now,
                    },
                )
            },
            _ => {
                let mut msg = String::from_str("No entries found for trace: ");
                msg.append(trace_id);
                Err(msg)
            },
        }
    }

    /// Summarises a trace now.
    pub fn export_zk_proof(&self, trace_id: &str) -> (r: Result<TraceProof, String>)
        requires
            self.wf(),
        ensures
            r is Ok <==> 0 < entries_with_id(self@, trace_id@).len() <= usize::MAX,
            r matches Ok(p) ==> p.trace_id@ == trace_id@ && p.agent_id@ == entries_with_id(self@, trace_id@)[0].agent_id@
                && p.entries == entries_with_id(self@, trace_id@).len()
                && p.root_hash@ == entries_with_id(self@, trace_id@).last().hash@,
    {
        let now = unix_now();
        self.export_zk_proof_at(trace_id, now)
    }
}

/// `v` is the object `{trace_id, agent_id, entries, root_hash, timestamp}`
/// of a proof, with the count held to the range of `i64`.
pub open spec fn is_proof_json(v: JsonValue, p: TraceProof) -> bool {
    match v {
        JsonValue::Object(m) => {
            &&& m@.len() == 5
            &&& m@[0].0@ == "trace_id"@ && m@[0].1 == JsonValue::Str(p.trace_id)
            &&& m@[1].0@ == "agent_id"@ && m@[1].1 == JsonValue::Str(p.agent_id)
            &&& m@[2].0@ == "entries"@ && m@[2].1 == JsonValue::Int(
                if p.entries <= i64::MAX {
                    p.entries as i64
                } else {
                    i64::MAX
                },
            )
            &&& m@[3].0@ == "root_hash"@ && m@[3].1 == JsonValue::Str(p.root_hash)
            &&& m@[4].0@ == "timestamp"@ && m@[4].1 == JsonValue::Int(p.timestamp)
        },
        _ => false,
    }
}

impl TraceProof {
    /// The summary as `{trace_id, agent_id, entries, root_hash, timestamp}`.
    pub fn to_json(&self) -> (r: JsonValue)
        ensures
            is_proof_json(r, *self),
    {
        let mut m: Vec<(String, JsonValue)> = Vec::new();
        m.push((String::from_str("trace_id"), JsonValue::Str(self.trace_id.clone())));
        m.push((String::from_str("agent_id"), JsonValue::Str(self.agent_id.clone())));
        let n: i64 = if (self.entries as u64) <= (i64::MAX as u64) {
            self.entries as i64
        } else {
            i64::MAX
        };
        m.push((String::from_str("entries"), JsonValue::Int(n)));
        m.push((String::from_str("root_hash"), JsonValue::Str(self.root_hash.clone())));
        m.push((String::from_str("timestamp"), JsonValue::Int(self.timestamp)));
        JsonValue::Object(m)
    }
}

} // verus!

verus! {

/// Chain integrity: in every trace each entry after the first carries its
/// predecessor's hash, and hashing its predecessor's hash with its own event
/// type, payload and time reproduces its hash.
pub proof fn lemma_chain_integrity(tracer: PoseidonTracer, k: int, i: int)
    requires
        tracer.wf(),
        0 <= k < tracer@.len(),
        0 <= i && i + 1 < tracer@[k].entries@.len(),
    ensures
        tracer@[k].entries@[i + 1].prev_hash matches Some(p) && p@ == tracer@[k].entries@[i].hash@,
        tracer@[k].entries@[i + 1].hash@ == event_hash(
            tracer@[k].entries@[i].hash@,
            tracer@[k].entries@[i + 1].event_type@,
            tracer@[k].entries@[i + 1].data,
            tracer@[k].entries@[i + 1].timestamp,
        ),
{
    assert(chain_ok(tracer@[k]));
    assert(linked(tracer@[k].entries@, i + 1));
}

/// Bookends: every trace opens with its `trace.begin` entry, which has no
/// predecessor and is hashed from the agent, intent and start time; a trace
/// that has ended closes with its `trace.end` entry.
pub proof fn lemma_chain_bookends(tracer: PoseidonTracer, k: int)
    requires
        tracer.wf(),
        0 <= k < tracer@.len(),
    ensures
        tracer@[k].entries@.len() >= 1,
        tracer@[k].entries@[0].event_type@ == "trace.begin"@,
        tracer@[k].entries@[0].prev_hash is None,
        tracer@[k].entries@[0].hash@ == begin_hash(tracer@[k].agent_id@, tracer@[k].intent@, tracer@[k].start_time),
        tracer@[k].status != TraceStatus::Active ==> tracer@[k].entries@.last().event_type@ == "trace.end"@,
{
    assert(chain_ok(tracer@[k]));
}

/// An ended trace stays as it ended: its `trace.end` entry remains its last
/// entry through every later begin, record and end, so it has at most one
/// end entry written by `end_trace`.
pub proof fn lemma_ended_trace_kept(before: PoseidonTracer, after: PoseidonTracer, k: int)
    requires
        before.wf(),
        ended_kept(before@, after@),
        0 <= k < before@.len(),
        before@[k].status != TraceStatus::Active,
    ensures
        after@[k] == before@[k],
        after@[k].entries@.last().event_type@ == "trace.end"@,
{
    assert(chain_ok(before@[k]));
}

} // verus!
