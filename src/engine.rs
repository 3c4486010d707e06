use vstd::prelude::*;
use crate::text::{push_str, string_of};

verus! {

#[verifier::external_type_specification]
#[verifier::external_body]
pub struct ExSystemTime(std::time::SystemTime);

/// Relies on `std::time::SystemTime::now`: the current wall-clock time, of which nothing is promised.
#[verifier::external_body]
fn now() -> std::time::SystemTime {
    std::time::SystemTime::now()
}

/// Relies on `uuid::Uuid::new_v4` and its `Display`, which writes the hyphenated lowercase form
/// (36 characters). The value is random.
#[verifier::external_body]
fn random_uuid_text() -> (r: String)
    ensures
        r@.len() == 36,
{
    uuid::Uuid::new_v4().to_string()
}

/// Identifier of one execution: `exec_` followed by a random UUID.
pub struct ExecutionId(pub String);

impl ExecutionId {
    pub fn new() -> (r: ExecutionId)
        ensures
            r.0@.len() == 41,
            r.0@.subrange(0, 5) == "exec_"@,
    {
        let u = random_uuid_text();
        let mut out: Vec<char> = Vec::new();
        push_str(&mut out, "exec_");
        proof {
            reveal_strlit("exec_");
        }
        push_str(&mut out, u.as_str());
        assert(out@.subrange(0, 5) =~= "exec_"@);
        ExecutionId(string_of(&out))
    }

    pub fn copy(&self) -> (r: ExecutionId)
        ensures
            r.0@ == self.0@,
    {
        ExecutionId(self.0.clone())
    }
}

/// Whether a request only validates the configuration or also executes it.
#[derive(PartialEq, Eq, Structural)]
pub enum ExecutionMode {
    Validate,
    Execute,
}

impl Default for ExecutionMode {
    /// Executing is the default.
    fn default() -> (r: ExecutionMode)
        ensures
            r == ExecutionMode::Execute,
    {
        ExecutionMode::Execute
    }
}

/// What happened at one step of an execution.
#[derive(PartialEq, Eq, Structural)]
pub enum ExecutionEventKind {
    ExecutionCreated,
    ValidationFailed,
    ValidationSucceeded,
    ExecutionStarted,
    ExecutionFinished,
    ValidationStarted,
}

/// One step of an execution, with the time it happened.
pub struct ExecutionEvent {
    pub execution_id: ExecutionId,
    pub kind: ExecutionEventKind,
    pub timestamp: std::time::SystemTime,
}

/// An event of the given kind for `execution_id`, stamped now.
pub fn event_now(execution_id: &ExecutionId, kind: ExecutionEventKind) -> (r: ExecutionEvent)
    ensures
        r.execution_id.0@ == execution_id.0@,
        r.kind == kind,
{
    ExecutionEvent { execution_id: execution_id.copy(), kind, timestamp: now() }
}

/// The event that opens an execution.
pub fn execution_created(execution_id: ExecutionId) -> (r: ExecutionEvent)
    ensures
        r.execution_id == execution_id,
        r.kind == ExecutionEventKind::ExecutionCreated,
{
    ExecutionEvent { execution_id, kind: ExecutionEventKind::ExecutionCreated, timestamp: now() }
}

/// Receives the events of an execution.
pub trait EventSink {
    /// The events received so far, in order.
    spec fn recorded(&self) -> Seq<ExecutionEvent>;

    fn emit(&mut self, event: ExecutionEvent)
        ensures
            final(self).recorded() == old(self).recorded().push(event),
    ;
}

/// An event sink that keeps every event, in order.
pub struct CollectingEventSink {
    pub events: Vec<ExecutionEvent>,
}

impl CollectingEventSink {
    pub fn new() -> (r: CollectingEventSink)
        ensures
            r.events@.len() == 0,
    {
        CollectingEventSink { events: Vec::new() }
    }

    /// The events collected so far.
    pub fn events(&self) -> (r: &[ExecutionEvent])
        ensures
            r@ == self.events@,
    {
        self.events.as_slice()
    }

    /// The collected events, giving up the sink.
    pub fn into_events(self) -> (r: Vec<ExecutionEvent>)
        ensures
            r@ == self.events@,
    {
        self.events
    }

    /// Appends one event.
    pub fn record(&mut self, event: ExecutionEvent)
        ensures
            final(self).events@ == old(self).events@.push(event),
    {
        self.events.push(event);
    }
}

impl EventSink for CollectingEventSink {
    open spec fn recorded(&self) -> Seq<ExecutionEvent> {
        self.events@
    }

    fn emit(&mut self, event: ExecutionEvent) {
        self.record(event);
    }
}

/// One problem found while validating a configuration: a stable code and a message.
pub struct ValidationError {
    pub code: String,
    pub message: String,
}

/// The outcome of validating a configuration: valid exactly when no error was recorded.
pub struct ValidationResult {
    pub valid: bool,
    pub errors: Vec<ValidationError>,
}

impl ValidationResult {
    pub open spec fn codes(self) -> Seq<Seq<char>> {
        Seq::new(self.errors@.len(), |i: int| self.errors@[i].code@)
    }

    /// A result with no errors.
    pub fn ok() -> (r: ValidationResult)
        ensures
            r.valid,
            r.errors@.len() == 0,
    {
        ValidationResult { valid: true, errors: Vec::new() }
    }

    /// A result with one error.
    pub fn error(code: &str, message: String) -> (r: ValidationResult)
        ensures
            !r.valid,
            r.errors@.len() == 1,
            r.errors@[0].code@ == code@,
            r.errors@[0].message@ == message@,
    {
        let mut errors: Vec<ValidationError> = Vec::new();
        errors.push(ValidationError { code: code.to_owned(), message });
        ValidationResult { valid: false, errors }
    }

    /// Records an error; the result is no longer valid.
    pub fn push_error(&mut self, code: &str, message: String)
        ensures
            !final(self).valid,
            final(self).errors@.len() == old(self).errors@.len() + 1,
            forall|i: int| 0 <= i < old(self).errors@.len() ==> final(self).errors@[i] == old(self).errors@[i],
            final(self).errors@.last().code@ == code@,
            final(self).errors@.last().message@ == message@,
    {
        self.valid = false;
        self.errors.push(ValidationError { code: code.to_owned(), message });
    }

    /// Valid and free of errors.
    pub fn is_valid(&self) -> (r: bool)
        ensures
            r == (self.valid && self.errors@.len() == 0),
    {
        self.valid && self.errors.len() == 0
    }
}

/// The figures of a finished execution.
pub struct ExecutionResult {
    pub ok: bool,
    pub runs: u64,
    pub failures: Vec<String>,
    pub max_duration_ms: Option<u128>,
    pub max_memory_kb: Option<u64>,
    pub snapshots_ok: bool,
}

/// How far an execution went.
#[derive(PartialEq, Eq, Structural)]
pub enum ExecutionStatus {
    ValidatedOnly,
    ValidationFailed,
    Executed,
}

/// What an execution hands back: its id, how far it went, and its result when it ran.
pub struct ExecutionSummary {
    pub execution_id: ExecutionId,
    pub status: ExecutionStatus,
    pub result: Option<ExecutionResult>,
}

impl ExecutionSummary {
    pub fn validation_failed(execution_id: ExecutionId) -> (r: ExecutionSummary)
        ensures
            r.execution_id == execution_id,
            r.status == ExecutionStatus::ValidationFailed,
            r.result is None,
    {
        ExecutionSummary { execution_id, status: ExecutionStatus::ValidationFailed, result: None }
    }

    pub fn validated_only(execution_id: ExecutionId) -> (r: ExecutionSummary)
        ensures
            r.execution_id == execution_id,
            r.status == ExecutionStatus::ValidatedOnly,
            r.result is None,
    {
        ExecutionSummary { execution_id, status: ExecutionStatus::ValidatedOnly, result: None }
    }

    pub fn executed(execution_id: ExecutionId, result: ExecutionResult) -> (r: ExecutionSummary)
        ensures
            r.execution_id == execution_id,
            r.status == ExecutionStatus::Executed,
            r.result == Some(result),
    {
        ExecutionSummary { execution_id, status: ExecutionStatus::Executed, result: Some(result) }
    }
}

/// The answer to a request: validation errors, or the result of an execution.
pub enum ExecutionResponse {
    Validate { execution_id: ExecutionId, valid: bool, errors: Vec<ValidationError> },
    Execute { execution_id: ExecutionId, result: ExecutionResult },
}

/// Opens an execution: records its creation and the start of validation.
pub fn begin_execution(sink: &mut CollectingEventSink, execution_id: &ExecutionId)
    ensures
        final(sink).events@.len() == old(sink).events@.len() + 2,
        forall|i: int| 0 <= i < old(sink).events@.len() ==> final(sink).events@[i] == old(sink).events@[i],
        final(sink).events@[old(sink).events@.len() as int].kind == ExecutionEventKind::ExecutionCreated,
        final(sink).events@[old(sink).events@.len() as int + 1].kind == ExecutionEventKind::ValidationStarted,
        final(sink).events@[old(sink).events@.len() as int].execution_id.0@ == execution_id.0@,
        final(sink).events@[old(sink).events@.len() as int + 1].execution_id.0@ == execution_id.0@,
{
    sink.record(execution_created(execution_id.copy()));
    sink.record(event_now(execution_id, ExecutionEventKind::ValidationStarted));
}

/// Decides what follows validation. A failed validation ends the execution with
/// `ValidationFailed` (and records that event); validate-only mode ends it with `ValidatedOnly`;
/// otherwise `None`: the action is to run.
pub fn after_validation(
    sink: &mut CollectingEventSink,
    execution_id: &ExecutionId,
    validation: &ValidationResult,
    mode: ExecutionMode,
) -> (r: Option<ExecutionSummary>)
    ensures
        !(validation.valid && validation.errors@.len() == 0) ==> (r matches Some(s) && s.status
            == ExecutionStatus::ValidationFailed && s.execution_id.0@ == execution_id.0@)
            && final(sink).events@.len() == old(sink).events@.len() + 1
            && final(sink).events@.last().kind == ExecutionEventKind::ValidationFailed
            && final(sink).events@.last().execution_id.0@ == execution_id.0@
            && forall|i: int| 0 <= i < old(sink).events@.len() ==> final(sink).events@[i] == old(sink).events@[i],
        (validation.valid && validation.errors@.len() == 0) ==> final(sink).events@ == old(sink).events@
            && (mode == ExecutionMode::Validate ==> (r matches Some(s) && s.status
            == ExecutionStatus::ValidatedOnly && s.execution_id.0@ == execution_id.0@))
            && (mode == ExecutionMode::Execute ==> r is None),
        r matches Some(s) ==> s.result is None,
{
    if !validation.is_valid() {
        sink.record(event_now(execution_id, ExecutionEventKind::ValidationFailed));
        return Some(ExecutionSummary::validation_failed(execution_id.copy()));
    }
    match mode {
        ExecutionMode::Validate => Some(ExecutionSummary::validated_only(execution_id.copy())),
        ExecutionMode::Execute => None,
    }
}

/// Records that the action starts running.
pub fn start_execution(sink: &mut CollectingEventSink, execution_id: &ExecutionId)
    ensures
        final(sink).events@.len() == old(sink).events@.len() + 1,
        forall|i: int| 0 <= i < old(sink).events@.len() ==> final(sink).events@[i] == old(sink).events@[i],
        final(sink).events@.last().kind == ExecutionEventKind::ExecutionStarted,
        final(sink).events@.last().execution_id.0@ == execution_id.0@,
{
    sink.record(event_now(execution_id, ExecutionEventKind::ExecutionStarted));
}

/// Closes an executed run: records its end and wraps the result.
pub fn finish_execution(sink: &mut CollectingEventSink, execution_id: ExecutionId, result: ExecutionResult) -> (r:
    ExecutionSummary)
    ensures
        final(sink).events@.len() == old(sink).events@.len() + 1,
        forall|i: int| 0 <= i < old(sink).events@.len() ==> final(sink).events@[i] == old(sink).events@[i],
        final(sink).events@.last().kind == ExecutionEventKind::ExecutionFinished,
        final(sink).events@.last().execution_id.0@ == execution_id.0@,
        r.status == ExecutionStatus::Executed,
        r.result == Some(result),
        r.execution_id == execution_id,
{
    sink.record(event_now(&execution_id, ExecutionEventKind::ExecutionFinished));
    ExecutionSummary::executed(execution_id, result)
}

} // verus!
