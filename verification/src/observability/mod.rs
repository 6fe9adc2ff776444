//! What is exported of the operations of the runtime: traces, counters and their labels.
//!
//! The caller owns the queue, the exporters and the clocks; what they are given is decided
//! here.

use crate::text::{
    decimal_size, digits, is_blank, law_written_numbers_are_read, opt_text, owned, parse_size,
    parsed_number, texts, trimmed,
};
use std::collections::HashMap;
use vstd::prelude::*;

pub mod status;

verus! {

broadcast use vstd::std_specs::hash::group_hash_axioms;

/// How many observations are queued where nothing else is set.
pub const DEFAULT_QUEUE_CAPACITY: usize = 4_096;

// Configuration.

/// What the environment says of the export.
#[derive(Debug)]
pub struct TelemetryEnv {
    pub otlp_endpoint: Option<String>,
    pub otlp_traces_endpoint: Option<String>,
    pub otlp_metrics_endpoint: Option<String>,
    /// The address of the metrics listener, where it is one.
    pub metrics_addr: Option<Result<String, String>>,
    pub queue_capacity: Option<String>,
}

/// What is exported, and where.
#[derive(Debug)]
pub struct TelemetryConfig {
    pub otlp_enabled: bool,
    pub metrics_addr: Option<String>,
    pub queue_capacity: usize,
}

pub open spec fn is_set(o: Option<String>) -> bool {
    o matches Some(s) && trimmed(s@).len() > 0
}

fn has_value(o: &Option<String>) -> (r: bool)
    ensures
        r == is_set(*o),
{
    match o {
        Some(s) => !is_blank(s.as_str()),
        None => false,
    }
}

/// The capacity of the queue: the one that is set, where it is a number above zero.
pub open spec fn capacity_of(o: Option<String>) -> nat {
    match o {
        Some(s) => match parsed_number(s@, usize::MAX as nat) {
            Some(n) => if n > 0 {
                n
            } else {
                DEFAULT_QUEUE_CAPACITY as nat
            },
            None => DEFAULT_QUEUE_CAPACITY as nat,
        },
        None => DEFAULT_QUEUE_CAPACITY as nat,
    }
}

impl TelemetryConfig {
    /// What the environment asks for. An address that is none is left out.
    pub fn from_env(env: &TelemetryEnv) -> (r: TelemetryConfig)
        ensures
            r.otlp_enabled == (is_set(env.otlp_endpoint) || is_set(env.otlp_traces_endpoint)
                || is_set(env.otlp_metrics_endpoint)),
            opt_text(r.metrics_addr) == (match env.metrics_addr {
                Some(Ok(addr)) => Some(addr@),
                _ => None,
            }),
            r.queue_capacity == capacity_of(env.queue_capacity),
            r.queue_capacity > 0,
    {
        let mut queue_capacity: usize = DEFAULT_QUEUE_CAPACITY;
        if let Some(s) = &env.queue_capacity {
            if let Some(n) = parse_size(s.as_str()) {
                if n > 0 {
                    queue_capacity = n;
                }
            }
        }
        TelemetryConfig {
            otlp_enabled: has_value(&env.otlp_endpoint) || has_value(&env.otlp_traces_endpoint)
                || has_value(&env.otlp_metrics_endpoint),
            metrics_addr: match &env.metrics_addr {
                Some(Ok(addr)) => Some(addr.clone()),
                _ => None,
            },
            queue_capacity,
        }
    }
}

// Operations.

/// What an operation does.
#[allow(inconsistent_fields)]
#[derive(Debug)]
pub enum OperationDetail {
    AgentRun,
    DagRun,
    DagNode,
    Turn { index: u32 },
    LlmRequest { provider: String, model: String },
    ToolExecution { tool_name: String },
    Compaction { algorithm: String, provider: String, model: String },
    SubagentJob { agent: String, source: String },
}

/// What an operation belongs to.
#[derive(Debug)]
pub struct ObservationContext {
    pub session_id: Option<String>,
    pub run_id: Option<String>,
    pub job_id: Option<String>,
    pub node_id: Option<String>,
    pub turn_id: Option<u32>,
}

/// The start of an operation.
#[derive(Debug)]
pub struct OperationStarted {
    pub id: u64,
    pub parent_id: Option<u64>,
    /// The name of the kind of the operation.
    pub operation: String,
    pub detail: OperationDetail,
    pub context: ObservationContext,
}

/// What an operation used.
#[derive(Clone, Copy, Debug, PartialEq, Eq, Structural)]
pub struct RuntimeMeasurements {
    pub input_tokens: u64,
    pub output_tokens: u64,
    pub cache_read_tokens: u64,
    pub cache_write_tokens: u64,
    pub characters: u64,
    pub turns: u64,
    pub tool_calls: u64,
}

/// How an operation ended.
#[derive(Clone, Copy, Debug, PartialEq, Eq, Structural)]
pub enum OperationOutcome {
    Succeeded,
    Failed,
    Cancelled,
    TimedOut,
    Abandoned,
}

/// The kind of an operation.
#[derive(Clone, Copy, Debug, PartialEq, Eq, Structural)]
pub enum OperationKind {
    AgentRun,
    DagRun,
    DagNode,
    Turn,
    LlmRequest,
    ToolExecution,
    Compaction,
    SubagentJob,
}

/// Whether the tokens of an operation are counted: those of a request to a model and of a
/// compaction.
pub open spec fn counts_tokens(kind: OperationKind) -> bool {
    kind == OperationKind::LlmRequest || kind == OperationKind::Compaction
}

/// The end of an operation.
#[derive(Debug)]
pub struct OperationFinished {
    pub id: u64,
    pub kind: OperationKind,
    /// The name of the kind of the operation.
    pub operation: String,
    pub outcome: OperationOutcome,
    /// The name of the outcome.
    pub outcome_label: String,
    pub error_category: Option<String>,
    pub measurements: RuntimeMeasurements,
}

// Trace attributes.

#[derive(Debug)]
pub enum AttributeValue {
    Int(i64),
    Text(String),
}

#[derive(Debug)]
pub struct Attribute {
    pub key: &'static str,
    pub value: AttributeValue,
}

/// The content of an `Attribute`.
pub struct AttributeView {
    pub key: Seq<char>,
    pub int: Option<i64>,
    pub text: Option<Seq<char>>,
}

impl View for Attribute {
    type V = AttributeView;

    open spec fn view(&self) -> AttributeView {
        match self.value {
            AttributeValue::Int(n) => int_attribute(self.key@, n),
            AttributeValue::Text(s) => text_attribute(self.key@, s@),
        }
    }
}

pub open spec fn int_attribute(key: Seq<char>, n: i64) -> AttributeView {
    AttributeView { key, int: Some(n), text: None }
}

pub open spec fn text_attribute(key: Seq<char>, s: Seq<char>) -> AttributeView {
    AttributeView { key, int: None, text: Some(s) }
}

pub open spec fn attribute_views(v: Seq<Attribute>) -> Seq<AttributeView> {
    Seq::new(v.len(), |i: int| v[i]@)
}

fn push_int(v: &mut Vec<Attribute>, key: &'static str, n: i64)
    ensures
        attribute_views(final(v)@) == attribute_views(old(v)@).push(int_attribute(key@, n)),
{
    let ghost before = attribute_views(v@);
    v.push(Attribute { key, value: AttributeValue::Int(n) });
    assert(attribute_views(v@) =~= before.push(int_attribute(key@, n)));
}

fn push_text(v: &mut Vec<Attribute>, key: &'static str, s: &str)
    ensures
        attribute_views(final(v)@) == attribute_views(old(v)@).push(text_attribute(key@, s@)),
{
    let ghost before = attribute_views(v@);
    v.push(Attribute { key, value: AttributeValue::Text(owned(s)) });
    assert(attribute_views(v@) =~= before.push(text_attribute(key@, s@)));
}

/// A list with a text attribute at its end, where there is a text.
pub open spec fn with_text(v: Seq<AttributeView>, key: Seq<char>, o: Option<String>) -> Seq<
    AttributeView,
> {
    match o {
        Some(s) => v.push(text_attribute(key, s@)),
        None => v,
    }
}

fn push_opt(v: &mut Vec<Attribute>, key: &'static str, o: &Option<String>)
    ensures
        attribute_views(final(v)@) == with_text(attribute_views(old(v)@), key@, *o),
{
    if let Some(s) = o {
        push_text(v, key, s.as_str());
    }
}

/// A list with the attributes of what an operation belongs to at its end.
pub open spec fn with_context(v: Seq<AttributeView>, c: ObservationContext) -> Seq<AttributeView> {
    let named = with_text(
        with_text(
            with_text(
                with_text(v, "theway.session.id"@, c.session_id),
                "theway.run.id"@,
                c.run_id,
            ),
            "theway.job.id"@,
            c.job_id,
        ),
        "theway.node.id"@,
        c.node_id,
    );
    match c.turn_id {
        Some(turn) => named.push(int_attribute("theway.turn.id"@, turn as i64)),
        None => named,
    }
}

fn push_context_attributes(v: &mut Vec<Attribute>, c: &ObservationContext)
    ensures
        attribute_views(final(v)@) == with_context(attribute_views(old(v)@), *c),
{
    push_opt(v, "theway.session.id", &c.session_id);
    push_opt(v, "theway.run.id", &c.run_id);
    push_opt(v, "theway.job.id", &c.job_id);
    push_opt(v, "theway.node.id", &c.node_id);
    if let Some(turn) = c.turn_id {
        push_int(v, "theway.turn.id", turn as i64);
    }
}

/// A list with the attributes of what an operation does at its end.
pub open spec fn with_detail(v: Seq<AttributeView>, d: OperationDetail) -> Seq<AttributeView> {
    match d {
        OperationDetail::Turn { index } => v.push(
            int_attribute("theway.turn.index"@, index as i64),
        ),
        OperationDetail::LlmRequest { provider, model } => v.push(
            text_attribute("gen_ai.provider.name"@, provider@),
        ).push(text_attribute("gen_ai.request.model"@, model@)),
        OperationDetail::ToolExecution { tool_name } => v.push(
            text_attribute("theway.tool.name"@, tool_name@),
        ),
        OperationDetail::Compaction { algorithm, provider, model } => v.push(
            text_attribute("theway.compaction.algorithm"@, algorithm@),
        ).push(text_attribute("gen_ai.provider.name"@, provider@)).push(
            text_attribute("gen_ai.request.model"@, model@),
        ),
        OperationDetail::SubagentJob { agent, source } => v.push(
            text_attribute("theway.agent.name"@, agent@),
        ).push(text_attribute("theway.agent.source"@, source@)),
        _ => v,
    }
}

/// The attributes of the trace of an operation.
pub open spec fn start_attributes(start: OperationStarted) -> Seq<AttributeView> {
    let both = seq![
        int_attribute("theway.operation.id"@, start.id as i64),
        text_attribute("theway.operation.kind"@, start.operation@),
    ];
    let parented = match start.parent_id {
        Some(parent) => both.push(int_attribute("theway.operation.parent_id"@, parent as i64)),
        None => both,
    };
    with_detail(with_context(parented, start.context), start.detail)
}

/// The attributes of the trace of an operation.
pub fn trace_attributes(start: &OperationStarted) -> (r: Vec<Attribute>)
    ensures
        attribute_views(r@) == start_attributes(*start),
{
    let mut v: Vec<Attribute> = Vec::new();
    assert(attribute_views(v@) =~= Seq::empty());
    push_int(&mut v, "theway.operation.id", start.id as i64);
    push_text(&mut v, "theway.operation.kind", start.operation.as_str());
    assert(attribute_views(v@) =~= seq![
        int_attribute("theway.operation.id"@, start.id as i64),
        text_attribute("theway.operation.kind"@, start.operation@),
    ]);
    if let Some(parent) = start.parent_id {
        push_int(&mut v, "theway.operation.parent_id", parent as i64);
    }
    push_context_attributes(&mut v, &start.context);
    match &start.detail {
        OperationDetail::Turn { index } => push_int(&mut v, "theway.turn.index", *index as i64),
        OperationDetail::LlmRequest { provider, model } => {
            push_text(&mut v, "gen_ai.provider.name", provider.as_str());
            push_text(&mut v, "gen_ai.request.model", model.as_str());
        },
        OperationDetail::ToolExecution { tool_name } => push_text(
            &mut v,
            "theway.tool.name",
            tool_name.as_str(),
        ),
        OperationDetail::Compaction { algorithm, provider, model } => {
            push_text(&mut v, "theway.compaction.algorithm", algorithm.as_str());
            push_text(&mut v, "gen_ai.provider.name", provider.as_str());
            push_text(&mut v, "gen_ai.request.model", model.as_str());
        },
        OperationDetail::SubagentJob { agent, source } => {
            push_text(&mut v, "theway.agent.name", agent.as_str());
            push_text(&mut v, "theway.agent.source", source.as_str());
        },
        _ => {},
    }
    v
}

/// A list with a measurement at its end, where it is above zero.
pub open spec fn with_measured(v: Seq<AttributeView>, key: Seq<char>, n: u64) -> Seq<AttributeView> {
    if n > 0 {
        v.push(int_attribute(key, n as i64))
    } else {
        v
    }
}

fn push_measured(v: &mut Vec<Attribute>, key: &'static str, n: u64)
    ensures
        attribute_views(final(v)@) == with_measured(attribute_views(old(v)@), key@, n),
{
    if n > 0 {
        push_int(v, key, n as i64);
    }
}

/// The attributes of the measurements of an operation.
pub open spec fn measured(m: RuntimeMeasurements) -> Seq<AttributeView> {
    let tokens = with_measured(
        with_measured(
            with_measured(
                with_measured(Seq::empty(), "gen_ai.usage.input_tokens"@, m.input_tokens),
                "gen_ai.usage.output_tokens"@,
                m.output_tokens,
            ),
            "theway.cache.read_tokens"@,
            m.cache_read_tokens,
        ),
        "theway.cache.write_tokens"@,
        m.cache_write_tokens,
    );
    with_measured(
        with_measured(
            with_measured(tokens, "theway.characters"@, m.characters),
            "theway.turns"@,
            m.turns,
        ),
        "theway.tool_calls"@,
        m.tool_calls,
    )
}

/// The attributes of the measurements of an operation: those above zero.
pub fn measurement_attributes(m: RuntimeMeasurements) -> (r: Vec<Attribute>)
    ensures
        attribute_views(r@) == measured(m),
{
    let mut v: Vec<Attribute> = Vec::new();
    assert(attribute_views(v@) =~= Seq::empty());
    push_measured(&mut v, "gen_ai.usage.input_tokens", m.input_tokens);
    push_measured(&mut v, "gen_ai.usage.output_tokens", m.output_tokens);
    push_measured(&mut v, "theway.cache.read_tokens", m.cache_read_tokens);
    push_measured(&mut v, "theway.cache.write_tokens", m.cache_write_tokens);
    push_measured(&mut v, "theway.characters", m.characters);
    push_measured(&mut v, "theway.turns", m.turns);
    push_measured(&mut v, "theway.tool_calls", m.tool_calls);
    v
}

/// Whether the trace of an operation ends with an error.
pub fn ends_in_error(outcome: OperationOutcome) -> (r: bool)
    ensures
        r == (outcome is Failed || outcome is TimedOut || outcome is Abandoned),
{
    match outcome {
        OperationOutcome::Failed | OperationOutcome::TimedOut | OperationOutcome::Abandoned => true,
        _ => false,
    }
}

// Counters.

/// An amount that is added to a counter, under labels.
#[derive(Debug)]
pub struct Counted {
    pub labels: Vec<String>,
    pub amount: u64,
}

/// The content of a `Counted`.
pub struct CountedView {
    pub labels: Seq<Seq<char>>,
    pub amount: u64,
}

impl View for Counted {
    type V = CountedView;

    open spec fn view(&self) -> CountedView {
        CountedView { labels: texts(self.labels@), amount: self.amount }
    }
}

pub open spec fn counted_views(v: Seq<Counted>) -> Seq<CountedView> {
    Seq::new(v.len(), |i: int| v[i]@)
}

/// A list with an amount at its end, where it is above zero.
pub open spec fn with_count(v: Seq<CountedView>, labels: Seq<Seq<char>>, amount: u64) -> Seq<
    CountedView,
> {
    if amount > 0 {
        v.push(CountedView { labels, amount })
    } else {
        v
    }
}

fn push_count(v: &mut Vec<Counted>, labels: Vec<String>, amount: u64)
    ensures
        counted_views(final(v)@) == with_count(
            counted_views(old(v)@),
            texts(labels@),
            amount,
        ),
{
    if amount > 0 {
        let ghost before = counted_views(v@);
        let c = Counted { labels, amount };
        v.push(c);
        assert(counted_views(v@) =~= before.push(c@));
    }
}

fn two(a: &str, b: &str) -> (r: Vec<String>)
    ensures
        texts(r@) == seq![a@, b@],
{
    let mut v: Vec<String> = Vec::new();
    v.push(owned(a));
    v.push(owned(b));
    assert(texts(v@) =~= seq![a@, b@]);
    v
}

fn three(a: &str, b: &str, c: &str) -> (r: Vec<String>)
    ensures
        texts(r@) == seq![a@, b@, c@],
{
    let mut v: Vec<String> = Vec::new();
    v.push(owned(a));
    v.push(owned(b));
    v.push(owned(c));
    assert(texts(v@) =~= seq![a@, b@, c@]);
    v
}

/// What is counted of the activity of an operation, under its kind.
pub open spec fn activity(operation: Seq<char>, m: RuntimeMeasurements) -> Seq<CountedView> {
    with_count(
        with_count(
            with_count(Seq::empty(), seq![operation, "characters"@], m.characters),
            seq![operation, "turns"@],
            m.turns,
        ),
        seq![operation, "tool_calls"@],
        m.tool_calls,
    )
}

/// What is counted of the activity of an operation.
pub fn activity_counts(operation: &str, m: RuntimeMeasurements) -> (r: Vec<Counted>)
    ensures
        counted_views(r@) == activity(operation@, m),
{
    let mut v: Vec<Counted> = Vec::new();
    assert(counted_views(v@) =~= Seq::empty());
    push_count(&mut v, two(operation, "characters"), m.characters);
    push_count(&mut v, two(operation, "turns"), m.turns);
    push_count(&mut v, two(operation, "tool_calls"), m.tool_calls);
    v
}

/// The provider and the model that tokens are counted under.
#[derive(Debug)]
pub struct MetricContext {
    pub provider: Option<String>,
    pub model: Option<String>,
}

pub open spec fn or_unknown(o: Option<String>) -> Seq<char> {
    match o {
        Some(s) => s@,
        None => "unknown"@,
    }
}

fn shown<'a>(o: &'a Option<String>) -> (r: &'a str)
    ensures
        r@ == or_unknown(*o),
{
    match o {
        Some(s) => s.as_str(),
        None => "unknown",
    }
}

/// What is counted of the tokens of a request.
pub open spec fn tokens(provider: Seq<char>, model: Seq<char>, m: RuntimeMeasurements) -> Seq<
    CountedView,
> {
    with_count(
        with_count(
            with_count(
                with_count(Seq::empty(), seq![provider, model, "input"@], m.input_tokens),
                seq![provider, model, "output"@],
                m.output_tokens,
            ),
            seq![provider, model, "cache_read"@],
            m.cache_read_tokens,
        ),
        seq![provider, model, "cache_write"@],
        m.cache_write_tokens,
    )
}

fn token_counts(provider: &str, model: &str, m: RuntimeMeasurements) -> (r: Vec<Counted>)
    ensures
        counted_views(r@) == tokens(provider@, model@, m),
{
    let mut v: Vec<Counted> = Vec::new();
    assert(counted_views(v@) =~= Seq::empty());
    push_count(&mut v, three(provider, model, "input"), m.input_tokens);
    push_count(&mut v, three(provider, model, "output"), m.output_tokens);
    push_count(&mut v, three(provider, model, "cache_read"), m.cache_read_tokens);
    push_count(&mut v, three(provider, model, "cache_write"), m.cache_write_tokens);
    v
}

pub open spec fn context_provider(d: OperationDetail) -> Option<Seq<char>> {
    match d {
        OperationDetail::LlmRequest { provider, .. } => Some(provider@),
        OperationDetail::Compaction { provider, .. } => Some(provider@),
        _ => None,
    }
}

pub open spec fn context_model(d: OperationDetail) -> Option<Seq<char>> {
    match d {
        OperationDetail::LlmRequest { model, .. } => Some(model@),
        OperationDetail::Compaction { model, .. } => Some(model@),
        _ => None,
    }
}

impl MetricContext {
    /// The provider and the model of an operation that has them.
    pub fn from_detail(detail: &OperationDetail) -> (r: MetricContext)
        ensures
            opt_text(r.provider) == context_provider(*detail),
            opt_text(r.model) == context_model(*detail),
    {
        match detail {
            OperationDetail::LlmRequest { provider, model } => MetricContext {
                provider: Some(provider.clone()),
                model: Some(model.clone()),
            },
            OperationDetail::Compaction { provider, model, .. } => MetricContext {
                provider: Some(provider.clone()),
                model: Some(model.clone()),
            },
            _ => MetricContext { provider: None, model: None },
        }
    }
}

/// An operation that is under way.
#[derive(Debug)]
pub struct ActiveOperation {
    pub operation: String,
    pub context: MetricContext,
}

/// What the end of an operation adds to the counters.
#[derive(Debug)]
pub struct FinishEffects {
    /// Whether the operation was under way, so that one less is now.
    pub was_active: bool,
    /// The kind, the outcome and the category of the error of the operation.
    pub labels: Vec<String>,
    pub activity: Vec<Counted>,
    pub tokens: Vec<Counted>,
}

pub open spec fn error_label(o: Option<String>) -> Seq<char> {
    match o {
        Some(s) => s@,
        None => "none"@,
    }
}

/// The operations that are under way.
#[derive(Debug)]
pub struct ObservationWorker {
    pub active: HashMap<u64, ActiveOperation>,
}

/// Whether the start of an operation leads from a state to another.
pub open spec fn starts(
    w: ObservationWorker,
    start: OperationStarted,
    has_parent: bool,
    after: ObservationWorker,
) -> bool {
    &&& has_parent == (start.parent_id matches Some(p) && w.active@.dom().contains(p))
    &&& after.active@.dom() == w.active@.dom().insert(start.id)
    &&& after.active@[start.id].operation@ == start.operation@
    &&& opt_text(after.active@[start.id].context.provider) == context_provider(start.detail)
    &&& opt_text(after.active@[start.id].context.model) == context_model(start.detail)
    &&& forall|id: u64|
        id != start.id && w.active@.dom().contains(id) ==> (#[trigger] after.active@[id])
            == w.active@[id]
}

/// Whether the end of an operation leads from a state to another, and what it adds to the
/// counters.
pub open spec fn finishes(
    w: ObservationWorker,
    finish: OperationFinished,
    r: FinishEffects,
    after: ObservationWorker,
) -> bool {
    &&& after.active@ == w.active@.remove(finish.id)
    &&& r.was_active == w.active@.dom().contains(finish.id)
    &&& texts(r.labels@) == seq![
        finish.operation@,
        finish.outcome_label@,
        error_label(finish.error_category),
    ]
    &&& counted_views(r.activity@) == activity(finish.operation@, finish.measurements)
    &&& counted_views(r.tokens@) == (if !counts_tokens(finish.kind) {
        Seq::empty()
    } else if w.active@.dom().contains(finish.id) {
        tokens(
            or_unknown(w.active@[finish.id].context.provider),
            or_unknown(w.active@[finish.id].context.model),
            finish.measurements,
        )
    } else {
        tokens("unknown"@, "unknown"@, finish.measurements)
    })
}

/// An operation that was still under way when its observation ended.
#[derive(Debug)]
pub struct AbandonedOperation {
    pub id: u64,
    /// The kind, the outcome and the category of the error of the operation.
    pub labels: Vec<String>,
}

/// The outcome of an operation that did not end.
pub const ABANDONED: &'static str = "abandoned";

/// Whether a list holds the operations that are under way, each once, as abandoned ones. Their
/// order is left open.
pub open spec fn are_abandoned(w: ObservationWorker, r: Seq<AbandonedOperation>) -> bool {
    &&& forall|i: int|
        0 <= i < r.len() ==> w.active@.dom().contains((#[trigger] r[i]).id) && texts(
            r[i].labels@,
        ) == seq![w.active@[r[i].id].operation@, "abandoned"@, "runtime"@]
    &&& forall|i: int, j: int| 0 <= i < j < r.len() ==> (#[trigger] r[i]).id != (#[trigger] r[j]).id
    &&& forall|id: u64| #[trigger]
        w.active@.dom().contains(id) ==> exists|i: int| 0 <= i < r.len() && (#[trigger] r[i]).id == id
}

fn keys_of(active: &HashMap<u64, ActiveOperation>) -> (r: Vec<u64>)
    ensures
        r@.no_duplicates(),
        forall|id: u64| r@.contains(id) <==> active@.dom().contains(id),
{
    let mut r: Vec<u64> = Vec::new();
    let ghost keys = vstd::std_specs::iter::IteratorSpec::remaining(
        &vstd::std_specs::hash::spec_keys_iter(active),
    );
    for id in it: active.keys()
        invariant
            it.seq() == keys,
            r@.len() == it.index(),
            forall|j: int| 0 <= j < r@.len() ==> r@[j] == *(#[trigger] keys[j]),
    {
        r.push(*id);
    }
    proof {
        assert(r@ =~= keys.unref());
        assert forall|i: int, j: int| 0 <= i < j < r@.len() implies r@[i] != r@[j] by {
            assert(*keys[i] == r@[i] && *keys[j] == r@[j]);
            assert(keys[i] != keys[j]);
        }
        assert forall|id: u64| r@.contains(id) <==> active@.dom().contains(id) by {
            assert(r@.contains(id) <==> r@.to_set().contains(id));
        }
    }
    r
}

impl ObservationWorker {
    pub fn new() -> (r: ObservationWorker)
        ensures
            r.active@ == Map::<u64, ActiveOperation>::empty(),
    {
        ObservationWorker { active: HashMap::new() }
    }

    /// Notes the start of an operation, and says whether its parent is under way: then its
    /// trace is part of the parent's.
    pub fn started(&mut self, start: &OperationStarted) -> (has_parent: bool)
        ensures
            starts(*old(self), *start, has_parent, *final(self)),
    {
        let has_parent = match start.parent_id {
            Some(parent) => self.active.contains_key(&parent),
            None => false,
        };
        let op = ActiveOperation {
            operation: start.operation.clone(),
            context: MetricContext::from_detail(&start.detail),
        };
        let ghost before = self.active@;
        self.active.insert(start.id, op);
        assert(self.active@ == before.insert(start.id, op));
        assert(self.active@.dom() =~= before.dom().insert(start.id));
        has_parent
    }

    /// Notes the end of an operation, and gives what it adds to the counters. Tokens are
    /// counted under the provider and the model that the operation started with.
    pub fn finished(&mut self, finish: &OperationFinished) -> (r: FinishEffects)
        ensures
            finishes(*old(self), *finish, r, *final(self)),
    {
        let started = self.active.remove(&finish.id);
        let was_active = started.is_some();
        let token_list = if !(finish.kind == OperationKind::LlmRequest || finish.kind
            == OperationKind::Compaction) {
            let none: Vec<Counted> = Vec::new();
            assert(counted_views(none@) =~= Seq::empty());
            none
        } else {
            match &started {
                Some(op) => token_counts(
                    shown(&op.context.provider),
                    shown(&op.context.model),
                    finish.measurements,
                ),
                None => token_counts("unknown", "unknown", finish.measurements),
            }
        };
        let category = match &finish.error_category {
            Some(c) => c.as_str(),
            None => "none",
        };
        FinishEffects {
            was_active,
            labels: three(finish.operation.as_str(), finish.outcome_label.as_str(), category),
            activity: activity_counts(finish.operation.as_str(), finish.measurements),
            tokens: token_list,
        }
    }

    /// Ends the observation: what is still under way is abandoned, and nothing is under way any
    /// more.
    pub fn abandoned(&mut self) -> (r: Vec<AbandonedOperation>)
        ensures
            are_abandoned(*old(self), r@),
            final(self).active@ == Map::<u64, ActiveOperation>::empty(),
    {
        let ids = keys_of(&self.active);
        let mut r: Vec<AbandonedOperation> = Vec::new();
        let mut i: usize = 0;
        while i < ids.len()
            invariant
                i <= ids@.len(),
                *self == *old(self),
                ids@.no_duplicates(),
                forall|id: u64| ids@.contains(id) <==> self.active@.dom().contains(id),
                r@.len() == i,
                forall|j: int|
                    0 <= j < i ==> (#[trigger] r@[j]).id == ids@[j] && texts(r@[j].labels@)
                        == seq![self.active@[ids@[j]].operation@, "abandoned"@, "runtime"@],
            decreases ids@.len() - i,
        {
            let id = ids[i];
            assert(ids@.contains(id));
            if let Some(op) = self.active.get(&id) {
                let labels = three(op.operation.as_str(), ABANDONED, "runtime");
                r.push(AbandonedOperation { id, labels });
            }
            i += 1;
        }
        proof {
            assert forall|id: u64| #[trigger] old(self).active@.dom().contains(id) implies exists|
                k: int,
            |
                0 <= k < r@.len() && (#[trigger] r@[k]).id == id by {
                assert(ids@.contains(id));
                let k = choose|k: int| 0 <= k < ids@.len() && ids@[k] == id;
                assert(r@[k].id == id);
            }
            assert forall|k: int| 0 <= k < r@.len() implies old(self).active@.dom().contains(
                (#[trigger] r@[k]).id,
            ) by {
                assert(ids@.contains(ids@[k]));
            }
        }
        self.active.clear();
        r
    }
}

// The metrics listener.

/// The first bytes of a request for the metrics.
pub open spec fn metrics_request() -> Seq<u8> {
    seq![71u8, 69, 84, 32, 47, 109, 101, 116, 114, 105, 99, 115, 32]
}

/// Whether a request asks for the metrics: it begins with `GET /metrics `.
pub fn is_metrics_request(request: &Vec<u8>) -> (r: bool)
    ensures
        r == (request@.len() >= 13 && request@.take(13) == metrics_request()),
{
    if request.len() < 13 {
        return false;
    }
    let r = request[0] == 71 && request[1] == 69 && request[2] == 84 && request[3] == 32
        && request[4] == 47 && request[5] == 109 && request[6] == 101 && request[7] == 116
        && request[8] == 114 && request[9] == 105 && request[10] == 99 && request[11] == 115
        && request[12] == 32;
    proof {
        let head = request@.take(13);
        if r {
            assert(head =~= metrics_request());
        } else if head == metrics_request() {
            assert(head[0] == 71 && head[1] == 69 && head[2] == 84 && head[3] == 32);
            assert(head[4] == 47 && head[5] == 109 && head[6] == 101 && head[7] == 116);
            assert(head[8] == 114 && head[9] == 105 && head[10] == 99 && head[11] == 115);
            assert(head[12] == 32);
        }
    }
    r
}

/// The head of the answer of the metrics listener.
pub fn response_head(found: bool, content_type: &str, body_len: usize) -> (r: String)
    ensures
        r@ == "HTTP/1.1 "@ + (if found {
            "200 OK"@
        } else {
            "404 Not Found"@
        }) + "\r\nContent-Type: "@ + (if found {
            content_type@
        } else {
            "text/plain; charset=utf-8"@
        }) + "\r\nContent-Length: "@ + digits(body_len as nat)
            + "\r\nConnection: close\r\n\r\n"@,
{
    let mut r = owned("HTTP/1.1 ");
    r.push_str(
        if found {
            "200 OK"
        } else {
            "404 Not Found"
        },
    );
    r.push_str("\r\nContent-Type: ");
    r.push_str(
        if found {
            content_type
        } else {
            "text/plain; charset=utf-8"
        },
    );
    r.push_str("\r\nContent-Length: ");
    r.push_str(decimal_size(body_len).as_str());
    r.push_str("\r\nConnection: close\r\n\r\n");
    r
}

// Laws.

/// An operation that started and did not end is abandoned once, under its kind; one that ended
/// is not abandoned.
pub proof fn law_unfinished_operations_are_abandoned(
    w: ObservationWorker,
    start: OperationStarted,
    has_parent: bool,
    started: ObservationWorker,
    unfinished: Seq<AbandonedOperation>,
    finish: OperationFinished,
    effects: FinishEffects,
    ended: ObservationWorker,
    rest: Seq<AbandonedOperation>,
)
    requires
        starts(w, start, has_parent, started),
        are_abandoned(started, unfinished),
        finish.id == start.id,
        finishes(started, finish, effects, ended),
        are_abandoned(ended, rest),
    ensures
        exists|i: int|
            0 <= i < unfinished.len() && (#[trigger] unfinished[i]).id == start.id && texts(
                unfinished[i].labels@,
            ) == seq![start.operation@, "abandoned"@, "runtime"@],
        forall|i: int| 0 <= i < rest.len() ==> (#[trigger] rest[i]).id != start.id,
{
    assert(started.active@.dom().contains(start.id));
    let i = choose|i: int| 0 <= i < unfinished.len() && (#[trigger] unfinished[i]).id == start.id;
    assert(unfinished[i].id == start.id);
}

/// An operation is under way from its start to its end: its end takes it away, counts it as
/// one that was under way, and counts its tokens under the provider and the model that it
/// started with.
pub proof fn law_operations_end_once(
    w: ObservationWorker,
    start: OperationStarted,
    has_parent: bool,
    started: ObservationWorker,
    finish: OperationFinished,
    first: FinishEffects,
    ended: ObservationWorker,
    second: FinishEffects,
    after: ObservationWorker,
)
    requires
        starts(w, start, has_parent, started),
        finish.id == start.id,
        finishes(started, finish, first, ended),
        finishes(ended, finish, second, after),
    ensures
        first.was_active,
        !second.was_active,
        ended.active@ == w.active@.remove(start.id),
        counts_tokens(finish.kind) && context_provider(start.detail) is Some ==> counted_views(
            first.tokens@,
        ) == tokens(
            context_provider(start.detail)->0,
            context_model(start.detail)->0,
            finish.measurements,
        ),
{
    assert(ended.active@ =~= w.active@.remove(start.id));
}

/// Whether a list counts an amount under labels.
pub open spec fn counts(v: Seq<CountedView>, labels: Seq<Seq<char>>, amount: u64) -> bool {
    exists|i: int| 0 <= i < v.len() && (#[trigger] v[i]).labels == labels && v[i].amount == amount
}

proof fn lemma_with_count(
    v: Seq<CountedView>,
    labels: Seq<Seq<char>>,
    amount: u64,
    other: Seq<Seq<char>>,
    n: u64,
)
    ensures
        amount > 0 ==> counts(with_count(v, labels, amount), labels, amount),
        counts(v, other, n) ==> counts(with_count(v, labels, amount), other, n),
        with_count(v, labels, amount).len() == v.len() + if amount > 0 {
            1int
        } else {
            0
        },
{
    let out = with_count(v, labels, amount);
    if amount > 0 {
        assert(out[v.len() as int].labels == labels);
    }
    if counts(v, other, n) {
        let i = choose|i: int|
            0 <= i < v.len() && (#[trigger] v[i]).labels == other && v[i].amount == n;
        assert(out[i] == v[i]);
    }
}

/// One for a number that counts, zero for none.
pub open spec fn counted_once(n: u64) -> int {
    if n > 0 {
        1
    } else {
        0
    }
}

/// Tokens are counted by their own direction, for the provider and the model that used them, and
/// only where there are any.
pub proof fn law_tokens_are_counted_by_direction(
    provider: Seq<char>,
    model: Seq<char>,
    m: RuntimeMeasurements,
)
    ensures
        ({
            let v = tokens(provider, model, m);
            &&& m.input_tokens > 0 ==> counts(v, seq![provider, model, "input"@], m.input_tokens)
            &&& m.output_tokens > 0 ==> counts(v, seq![provider, model, "output"@], m.output_tokens)
            &&& m.cache_read_tokens > 0 ==> counts(
                v,
                seq![provider, model, "cache_read"@],
                m.cache_read_tokens,
            )
            &&& m.cache_write_tokens > 0 ==> counts(
                v,
                seq![provider, model, "cache_write"@],
                m.cache_write_tokens,
            )
            &&& v.len() == counted_once(m.input_tokens) + counted_once(m.output_tokens)
                + counted_once(m.cache_read_tokens) + counted_once(m.cache_write_tokens)
        }),
{
    let l1 = seq![provider, model, "input"@];
    let l2 = seq![provider, model, "output"@];
    let l3 = seq![provider, model, "cache_read"@];
    let l4 = seq![provider, model, "cache_write"@];
    let v0 = Seq::<CountedView>::empty();
    let v1 = with_count(v0, l1, m.input_tokens);
    let v2 = with_count(v1, l2, m.output_tokens);
    let v3 = with_count(v2, l3, m.cache_read_tokens);
    lemma_with_count(v0, l1, m.input_tokens, l1, m.input_tokens);
    lemma_with_count(v1, l2, m.output_tokens, l1, m.input_tokens);
    lemma_with_count(v2, l3, m.cache_read_tokens, l1, m.input_tokens);
    lemma_with_count(v2, l3, m.cache_read_tokens, l2, m.output_tokens);
    lemma_with_count(v3, l4, m.cache_write_tokens, l1, m.input_tokens);
    lemma_with_count(v3, l4, m.cache_write_tokens, l2, m.output_tokens);
    lemma_with_count(v3, l4, m.cache_write_tokens, l3, m.cache_read_tokens);
}

/// What an operation did is counted under its own name and its own measure, and only where there
/// is any.
pub proof fn law_activity_is_counted_by_measure(operation: Seq<char>, m: RuntimeMeasurements)
    ensures
        ({
            let v = activity(operation, m);
            &&& m.characters > 0 ==> counts(v, seq![operation, "characters"@], m.characters)
            &&& m.turns > 0 ==> counts(v, seq![operation, "turns"@], m.turns)
            &&& m.tool_calls > 0 ==> counts(v, seq![operation, "tool_calls"@], m.tool_calls)
            &&& v.len() == counted_once(m.characters) + counted_once(m.turns) + counted_once(
                m.tool_calls,
            )
        }),
{
    let l1 = seq![operation, "characters"@];
    let l2 = seq![operation, "turns"@];
    let l3 = seq![operation, "tool_calls"@];
    let v0 = Seq::<CountedView>::empty();
    let v1 = with_count(v0, l1, m.characters);
    let v2 = with_count(v1, l2, m.turns);
    lemma_with_count(v0, l1, m.characters, l1, m.characters);
    lemma_with_count(v1, l2, m.turns, l1, m.characters);
    lemma_with_count(v2, l3, m.tool_calls, l1, m.characters);
    lemma_with_count(v2, l3, m.tool_calls, l2, m.turns);
}

proof fn lemma_in_detail(v: Seq<AttributeView>, d: OperationDetail, x: AttributeView)
    requires
        v.contains(x),
    ensures
        with_detail(v, d).contains(x),
{
    let i = choose|i: int| 0 <= i < v.len() && v[i] == x;
    assert(with_detail(v, d)[i] == x);
}

proof fn lemma_in_text(v: Seq<AttributeView>, key: Seq<char>, o: Option<String>, x: AttributeView)
    ensures
        v.contains(x) ==> with_text(v, key, o).contains(x),
        o is Some ==> with_text(v, key, o).contains(text_attribute(key, o->0@)),
{
    let out = with_text(v, key, o);
    if v.contains(x) {
        let i = choose|i: int| 0 <= i < v.len() && v[i] == x;
        assert(out[i] == x);
    }
    if o is Some {
        assert(out[v.len() as int] == text_attribute(key, o->0@));
    }
}

/// A trace carries the identifiers of the session, the run, the job and the node that an
/// operation belongs to, each under its own name.
pub proof fn law_traces_carry_where_an_operation_belongs(start: OperationStarted)
    ensures
        ({
            let v = start_attributes(start);
            let c = start.context;
            &&& v.contains(text_attribute("theway.operation.kind"@, start.operation@))
            &&& v.contains(int_attribute("theway.operation.id"@, start.id as i64))
            &&& c.session_id is Some ==> v.contains(
                text_attribute("theway.session.id"@, c.session_id->0@),
            )
            &&& c.run_id is Some ==> v.contains(text_attribute("theway.run.id"@, c.run_id->0@))
            &&& c.job_id is Some ==> v.contains(text_attribute("theway.job.id"@, c.job_id->0@))
            &&& c.node_id is Some ==> v.contains(text_attribute("theway.node.id"@, c.node_id->0@))
        }),
{
    let c = start.context;
    let kind = text_attribute("theway.operation.kind"@, start.operation@);
    let id = int_attribute("theway.operation.id"@, start.id as i64);
    let both = seq![id, kind];
    assert(both[0] == id && both[1] == kind);
    let v0 = match start.parent_id {
        Some(parent) => both.push(int_attribute("theway.operation.parent_id"@, parent as i64)),
        None => both,
    };
    assert(v0[0] == id && v0[1] == kind);
    assert(v0.contains(id) && v0.contains(kind));
    let v1 = with_text(v0, "theway.session.id"@, c.session_id);
    let v2 = with_text(v1, "theway.run.id"@, c.run_id);
    let v3 = with_text(v2, "theway.job.id"@, c.job_id);
    let v4 = with_text(v3, "theway.node.id"@, c.node_id);
    let v5 = with_context(v0, c);
    lemma_context_keeps(v0, c, kind);
    lemma_context_keeps(v0, c, id);
    lemma_in_detail(v5, start.detail, kind);
    lemma_in_detail(v5, start.detail, id);
    if c.session_id is Some {
        let x = text_attribute("theway.session.id"@, c.session_id->0@);
        lemma_in_text(v0, "theway.session.id"@, c.session_id, x);
        lemma_in_text(v1, "theway.run.id"@, c.run_id, x);
        lemma_in_text(v2, "theway.job.id"@, c.job_id, x);
        lemma_in_text(v3, "theway.node.id"@, c.node_id, x);
        lemma_turn_keeps(v4, c, x);
        lemma_in_detail(v5, start.detail, x);
    }
    if c.run_id is Some {
        let x = text_attribute("theway.run.id"@, c.run_id->0@);
        lemma_in_text(v1, "theway.run.id"@, c.run_id, x);
        lemma_in_text(v2, "theway.job.id"@, c.job_id, x);
        lemma_in_text(v3, "theway.node.id"@, c.node_id, x);
        lemma_turn_keeps(v4, c, x);
        lemma_in_detail(v5, start.detail, x);
    }
    if c.job_id is Some {
        let x = text_attribute("theway.job.id"@, c.job_id->0@);
        lemma_in_text(v2, "theway.job.id"@, c.job_id, x);
        lemma_in_text(v3, "theway.node.id"@, c.node_id, x);
        lemma_turn_keeps(v4, c, x);
        lemma_in_detail(v5, start.detail, x);
    }
    if c.node_id is Some {
        let x = text_attribute("theway.node.id"@, c.node_id->0@);
        lemma_in_text(v3, "theway.node.id"@, c.node_id, x);
        lemma_turn_keeps(v4, c, x);
        lemma_in_detail(v5, start.detail, x);
    }
}

proof fn lemma_turn_keeps(v: Seq<AttributeView>, c: ObservationContext, x: AttributeView)
    requires
        v.contains(x),
    ensures
        (match c.turn_id {
            Some(turn) => v.push(int_attribute("theway.turn.id"@, turn as i64)),
            None => v,
        }).contains(x),
{
    let i = choose|i: int| 0 <= i < v.len() && v[i] == x;
    let out = match c.turn_id {
        Some(turn) => v.push(int_attribute("theway.turn.id"@, turn as i64)),
        None => v,
    };
    assert(out[i] == x);
}

proof fn lemma_context_keeps(v: Seq<AttributeView>, c: ObservationContext, x: AttributeView)
    requires
        v.contains(x),
    ensures
        with_context(v, c).contains(x),
{
    let v1 = with_text(v, "theway.session.id"@, c.session_id);
    let v2 = with_text(v1, "theway.run.id"@, c.run_id);
    let v3 = with_text(v2, "theway.job.id"@, c.job_id);
    let v4 = with_text(v3, "theway.node.id"@, c.node_id);
    lemma_in_text(v, "theway.session.id"@, c.session_id, x);
    lemma_in_text(v1, "theway.run.id"@, c.run_id, x);
    lemma_in_text(v2, "theway.job.id"@, c.job_id, x);
    lemma_in_text(v3, "theway.node.id"@, c.node_id, x);
    lemma_turn_keeps(v4, c, x);
}

/// A queue holds as many as is asked for, and a default number where nothing usable is asked
/// for.
pub proof fn law_queues_hold_what_is_asked_for(s: String, n: nat)
    ensures
        s@ == digits(n) && 0 < n <= usize::MAX ==> capacity_of(Some(s)) == n,
        s@ == digits(0) ==> capacity_of(Some(s)) == DEFAULT_QUEUE_CAPACITY,
        capacity_of(None) == DEFAULT_QUEUE_CAPACITY,
        parsed_number(s@, usize::MAX as nat) is None ==> capacity_of(Some(s))
            == DEFAULT_QUEUE_CAPACITY,
        capacity_of(Some(s)) > 0,
{
    law_written_numbers_are_read(n, usize::MAX as nat, s@, 0);
    law_written_numbers_are_read(0, usize::MAX as nat, s@, 0);
}

/// Tokens are counted for the provider and the model of the operation that used them, and for
/// unknown ones where its start was not seen; an operation that asks no model counts none.
pub proof fn law_tokens_belong_to_their_operation(
    w: ObservationWorker,
    finish: OperationFinished,
    r: FinishEffects,
    after: ObservationWorker,
)
    requires
        finishes(w, finish, r, after),
    ensures
        finish.kind != OperationKind::LlmRequest && finish.kind != OperationKind::Compaction
            ==> counted_views(r.tokens@).len() == 0,
        finish.kind == OperationKind::LlmRequest && w.active@.dom().contains(finish.id) && (
        w.active@[finish.id].context.provider matches Some(p)) && (
        w.active@[finish.id].context.model matches Some(m)) ==> counted_views(r.tokens@) == tokens(
            w.active@[finish.id].context.provider->0@,
            w.active@[finish.id].context.model->0@,
            finish.measurements,
        ),
        finish.kind == OperationKind::LlmRequest && !w.active@.dom().contains(finish.id)
            ==> counted_views(r.tokens@) == tokens("unknown"@, "unknown"@, finish.measurements),
        texts(r.labels@)[0] == finish.operation@,
        texts(r.labels@)[1] == finish.outcome_label@,
        texts(r.labels@)[2] == if finish.error_category is Some {
            finish.error_category->0@
        } else {
            "none"@
        },
        forall|id: u64|
            id != finish.id ==> (#[trigger] after.active@.dom().contains(id)
                <==> w.active@.dom().contains(id)),
{
}

/// Whether attributes hold a text under a key.
pub open spec fn tells_text(v: Seq<AttributeView>, key: Seq<char>, text: Seq<char>) -> bool {
    exists|i: int| 0 <= i < v.len() && (#[trigger] v[i]).key == key && v[i].text == Some(text)
}

/// Whether attributes hold a number under a key.
pub open spec fn tells_number(v: Seq<AttributeView>, key: Seq<char>, n: i64) -> bool {
    exists|i: int| 0 <= i < v.len() && (#[trigger] v[i]).key == key && v[i].int == Some(n)
}

proof fn lemma_tells_push(
    v: Seq<AttributeView>,
    a: AttributeView,
    key: Seq<char>,
    text: Seq<char>,
    n: i64,
)
    ensures
        tells_text(v, key, text) ==> tells_text(v.push(a), key, text),
        tells_number(v, key, n) ==> tells_number(v.push(a), key, n),
        a.text is Some ==> tells_text(v.push(a), a.key, a.text->0),
        a.int is Some ==> tells_number(v.push(a), a.key, a.int->0),
{
    let w = v.push(a);
    assert(w[v.len() as int] == a);
    if tells_text(v, key, text) {
        let i = choose|i: int|
            0 <= i < v.len() && (#[trigger] v[i]).key == key && v[i].text == Some(text);
        assert(w[i] == v[i]);
    }
    if tells_number(v, key, n) {
        let i = choose|i: int|
            0 <= i < v.len() && (#[trigger] v[i]).key == key && v[i].int == Some(n);
        assert(w[i] == v[i]);
    }
}

/// What is told of an operation names the provider and the model of a request, the tool of a
/// call, the agent of a job and the number of a turn, each under its own key.
pub proof fn law_details_are_told_under_their_keys(v: Seq<AttributeView>, d: OperationDetail)
    ensures
        d matches OperationDetail::Turn { index } ==> tells_number(
            with_detail(v, d),
            "theway.turn.index"@,
            index as i64,
        ),
        d matches OperationDetail::LlmRequest { provider, model } ==> tells_text(
            with_detail(v, d),
            "gen_ai.provider.name"@,
            provider@,
        ) && tells_text(with_detail(v, d), "gen_ai.request.model"@, model@),
        d matches OperationDetail::ToolExecution { tool_name } ==> tells_text(
            with_detail(v, d),
            "theway.tool.name"@,
            tool_name@,
        ),
        d matches OperationDetail::Compaction { algorithm, provider, model } ==> tells_text(
            with_detail(v, d),
            "theway.compaction.algorithm"@,
            algorithm@,
        ) && tells_text(with_detail(v, d), "gen_ai.provider.name"@, provider@) && tells_text(
            with_detail(v, d),
            "gen_ai.request.model"@,
            model@,
        ),
        d matches OperationDetail::SubagentJob { agent, source } ==> tells_text(
            with_detail(v, d),
            "theway.agent.name"@,
            agent@,
        ) && tells_text(with_detail(v, d), "theway.agent.source"@, source@),
        forall|i: int| 0 <= i < v.len() ==> with_detail(v, d)[i] == #[trigger] v[i],
{
    let w = with_detail(v, d);
    let n = v.len() as int;
    match d {
        OperationDetail::Turn { .. } | OperationDetail::ToolExecution { .. } => {
            assert(w[n].key == w[n].key);
        },
        OperationDetail::LlmRequest { .. } | OperationDetail::SubagentJob { .. } => {
            assert(w[n].key == w[n].key);
            assert(w[n + 1].key == w[n + 1].key);
        },
        OperationDetail::Compaction { .. } => {
            assert(w[n].key == w[n].key);
            assert(w[n + 1].key == w[n + 1].key);
            assert(w[n + 2].key == w[n + 2].key);
        },
        _ => {},
    }
}

proof fn lemma_with_text(
    v: Seq<AttributeView>,
    key: Seq<char>,
    o: Option<String>,
    other: Seq<char>,
    text: Seq<char>,
)
    ensures
        tells_text(v, other, text) ==> tells_text(with_text(v, key, o), other, text),
        o is Some ==> tells_text(with_text(v, key, o), key, o->0@),
{
    if o is Some {
        lemma_tells_push(v, text_attribute(key, o->0@), other, text, 0);
    }
}

/// What is told of an operation names the session, the run, the job and the node that it belongs
/// to, each under its own key.
pub proof fn law_contexts_are_told_under_their_keys(v: Seq<AttributeView>, c: ObservationContext)
    ensures
        c.session_id matches Some(id) ==> tells_text(
            with_context(v, c),
            "theway.session.id"@,
            id@,
        ),
        c.run_id matches Some(id) ==> tells_text(with_context(v, c), "theway.run.id"@, id@),
        c.job_id matches Some(id) ==> tells_text(with_context(v, c), "theway.job.id"@, id@),
        c.node_id matches Some(id) ==> tells_text(with_context(v, c), "theway.node.id"@, id@),
        c.turn_id matches Some(id) ==> tells_number(
            with_context(v, c),
            "theway.turn.id"@,
            id as i64,
        ),
{
    let s = with_text(v, "theway.session.id"@, c.session_id);
    let r = with_text(s, "theway.run.id"@, c.run_id);
    let j = with_text(r, "theway.job.id"@, c.job_id);
    let n = with_text(j, "theway.node.id"@, c.node_id);
    lemma_context_part(s, r, j, n, c, "theway.session.id"@, c.session_id);
    lemma_context_part(s, r, j, n, c, "theway.run.id"@, c.run_id);
    lemma_context_part(s, r, j, n, c, "theway.job.id"@, c.job_id);
    lemma_context_part(s, r, j, n, c, "theway.node.id"@, c.node_id);
    if c.session_id is Some {
        lemma_with_text(v, "theway.session.id"@, c.session_id, Seq::empty(), Seq::empty());
    }
    lemma_with_text(s, "theway.run.id"@, c.run_id, Seq::empty(), Seq::empty());
    lemma_with_text(r, "theway.job.id"@, c.job_id, Seq::empty(), Seq::empty());
    lemma_with_text(j, "theway.node.id"@, c.node_id, Seq::empty(), Seq::empty());
    if c.turn_id is Some {
        lemma_tells_push(
            n,
            int_attribute("theway.turn.id"@, c.turn_id->0 as i64),
            Seq::empty(),
            Seq::empty(),
            0,
        );
    }
}

proof fn lemma_context_part(
    s: Seq<AttributeView>,
    r: Seq<AttributeView>,
    j: Seq<AttributeView>,
    n: Seq<AttributeView>,
    c: ObservationContext,
    key: Seq<char>,
    o: Option<String>,
)
    requires
        r == with_text(s, "theway.run.id"@, c.run_id),
        j == with_text(r, "theway.job.id"@, c.job_id),
        n == with_text(j, "theway.node.id"@, c.node_id),
    ensures
        o is Some ==> {
            let last = match c.turn_id {
                Some(turn) => n.push(int_attribute("theway.turn.id"@, turn as i64)),
                None => n,
            };
            tells_text(s, key, o->0@) || tells_text(r, key, o->0@) || tells_text(j, key, o->0@)
                || tells_text(n, key, o->0@) ==> tells_text(last, key, o->0@)
        },
{
    if o is Some {
        let t = o->0@;
        lemma_with_text(s, "theway.run.id"@, c.run_id, key, t);
        lemma_with_text(r, "theway.job.id"@, c.job_id, key, t);
        lemma_with_text(j, "theway.node.id"@, c.node_id, key, t);
        if c.turn_id is Some {
            lemma_tells_push(n, int_attribute("theway.turn.id"@, c.turn_id->0 as i64), key, t, 0);
        }
    }
}

} // verus!
