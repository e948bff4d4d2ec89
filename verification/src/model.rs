//! Concrete, I/O-free domain values. Serialization is a platform concern; these
//! values are not themselves the stored JSON contract.

use vstd::prelude::*;

use crate::config::{ConfigError, TimerConfig};

verus! {

/// UTC milliseconds since the Unix epoch. Not a monotonic runtime anchor.
#[derive(Debug, Clone, Copy, PartialEq, Eq, PartialOrd, Ord, Hash, Structural)]
pub struct Timestamp(pub u64);

#[derive(Debug, Clone, Copy, PartialEq, Eq, PartialOrd, Ord, Hash, Structural)]
pub struct SessionId(pub u64);

#[derive(Debug, Clone, Copy, PartialEq, Eq, PartialOrd, Ord, Hash, Structural)]
pub struct InterruptionId(pub u64);

#[derive(Debug, Clone, Copy, PartialEq, Eq, Hash, Structural)]
pub enum SessionKind {
    Focus,
    QuickStart,
    ShortBreak,
    LongBreak,
}

impl SessionKind {
    /// Focus and Quick Start are work; breaks are not.
    pub open spec fn spec_is_work(self) -> bool {
        self is Focus || self is QuickStart
    }

    pub fn is_work(self) -> (r: bool)
        ensures
            r == self.spec_is_work(),
    {
        match self {
            SessionKind::Focus | SessionKind::QuickStart => true,
            _ => false,
        }
    }
}

#[derive(Debug, Clone, Copy, PartialEq, Eq, Hash, Structural)]
pub enum SessionOutcome {
    Completed,
    Cancelled,
    Reset,
    Skipped,
}

/// An optional one-line task: nonempty and without surrounding whitespace.
#[derive(Debug, Clone, PartialEq, Eq)]
pub struct CurrentTask(String);

/// Unicode `White_Space`, the set that `str::trim` removes.
pub open spec fn is_unicode_whitespace(c: char) -> bool {
    let n = c as u32;
    ||| 0x09 <= n <= 0x0D
    ||| n == 0x20
    ||| n == 0x85
    ||| n == 0xA0
    ||| n == 0x1680
    ||| 0x2000 <= n <= 0x200A
    ||| n == 0x2028
    ||| n == 0x2029
    ||| n == 0x202F
    ||| n == 0x205F
    ||| n == 0x3000
}

/// Characters that end a line: LF, VT, FF, CR, NEL, LS and PS.
pub open spec fn is_line_break(c: char) -> bool {
    let n = c as u32;
    ||| 0x0A <= n <= 0x0D
    ||| n == 0x85
    ||| n == 0x2028
    ||| n == 0x2029
}

pub open spec fn trim_start_chars(s: Seq<char>) -> Seq<char>
    decreases s.len(),
{
    if s.len() > 0 && is_unicode_whitespace(s[0]) {
        trim_start_chars(s.drop_first())
    } else {
        s
    }
}

pub open spec fn trim_end_chars(s: Seq<char>) -> Seq<char>
    decreases s.len(),
{
    if s.len() > 0 && is_unicode_whitespace(s.last()) {
        trim_end_chars(s.drop_last())
    } else {
        s
    }
}

/// The text with leading and trailing Unicode whitespace removed.
pub open spec fn trim_chars(s: Seq<char>) -> Seq<char> {
    trim_end_chars(trim_start_chars(s))
}

pub open spec fn has_line_break(s: Seq<char>) -> bool {
    exists|i: int| 0 <= i < s.len() && is_line_break(#[trigger] s[i])
}

/// What `CurrentTask::parse` makes of an input line.
pub open spec fn parsed_task(input: Seq<char>) -> Result<Option<Seq<char>>, DomainError> {
    if trim_chars(input).len() == 0 {
        Ok(None)
    } else if has_line_break(input) {
        Err(DomainError::InvalidTask)
    } else {
        Ok(Some(trim_chars(input)))
    }
}

/// Trimming the start leaves a suffix that starts with no whitespace.
proof fn lemma_trim_start_suffix(s: Seq<char>)
    ensures
        trim_start_chars(s).len() <= s.len(),
        trim_start_chars(s) == s.subrange(s.len() - trim_start_chars(s).len(), s.len() as int),
        trim_start_chars(s).len() > 0 ==> !is_unicode_whitespace(trim_start_chars(s)[0]),
    decreases s.len(),
{
    if s.len() > 0 && is_unicode_whitespace(s[0]) {
        lemma_trim_start_suffix(s.drop_first());
        let t = trim_start_chars(s.drop_first());
        assert(s.drop_first().subrange(s.drop_first().len() - t.len(), s.drop_first().len() as int)
            =~= s.subrange(s.len() - t.len(), s.len() as int));
    } else {
        assert(s.subrange(0, s.len() as int) =~= s);
    }
}

/// Trimming the end leaves a prefix that ends with no whitespace.
proof fn lemma_trim_end_prefix(s: Seq<char>)
    ensures
        trim_end_chars(s).len() <= s.len(),
        trim_end_chars(s) == s.subrange(0, trim_end_chars(s).len() as int),
        trim_end_chars(s).len() > 0 ==> !is_unicode_whitespace(trim_end_chars(s).last()),
    decreases s.len(),
{
    if s.len() > 0 && is_unicode_whitespace(s.last()) {
        lemma_trim_end_prefix(s.drop_last());
        let t = trim_end_chars(s.drop_last());
        assert(s.drop_last().subrange(0, t.len() as int) =~= s.subrange(0, t.len() as int));
    } else {
        assert(s.subrange(0, s.len() as int) =~= s);
    }
}

/// A task that `CurrentTask::parse` accepts is its input trimmed: nonempty,
/// without a line break, and normalizing it again gives it back unchanged.
pub proof fn lemma_parse_normalizes(input: Seq<char>)
    requires
        parsed_task(input) matches Ok(Some(_)),
    ensures
        ({
            let task = parsed_task(input)->Ok_0->Some_0;
            &&& task == trim_chars(input)
            &&& task.len() > 0
            &&& !has_line_break(task)
            &&& parsed_task(task) == Ok::<Option<Seq<char>>, DomainError>(Some(task))
        }),
{
    let u = trim_start_chars(input);
    let v = trim_end_chars(u);
    lemma_trim_start_suffix(input);
    lemma_trim_end_prefix(u);
    assert(v == trim_chars(input));
    assert(v.len() > 0);
    assert(v[0] == u[0]);
    assert(trim_start_chars(v) == v);
    assert(trim_end_chars(v) == v);
    assert(trim_chars(v) == v);
    let offset = input.len() - u.len();
    assert forall|i: int| 0 <= i < v.len() implies !is_line_break(#[trigger] v[i]) by {
        assert(v[i] == u[i]);
        assert(u[i] == input[offset + i]);
        if is_line_break(v[i]) {
            assert(has_line_break(input));
        }
    }
}

/// `str::trim`: removes leading and trailing Unicode `White_Space`.
#[verifier::external_body]
fn str_trim(s: &str) -> (r: &str)
    ensures
        r@ == trim_chars(s@),
{
    s.trim()
}

impl View for CurrentTask {
    type V = Seq<char>;

    closed spec fn view(&self) -> Seq<char> {
        self.0@
    }
}

/// The text of an optional task.
pub open spec fn task_view(task: Option<CurrentTask>) -> Option<Seq<char>> {
    match task {
        Some(t) => Some(t@),
        None => None,
    }
}

impl CurrentTask {
    /// Normalizes optional one-line input. Blank input means no task; a task is
    /// stored trimmed. Embedded line separators are rejected.
    pub fn parse(input: &str) -> (r: Result<Option<Self>, DomainError>)
        ensures
            match r {
                Ok(Some(task)) => parsed_task(input@) == Ok::<Option<Seq<char>>, DomainError>(Some(task@)),
                Ok(None) => parsed_task(input@) == Ok::<Option<Seq<char>>, DomainError>(None),
                Err(e) => parsed_task(input@) == Err::<Option<Seq<char>>, DomainError>(e),
            },
    {
        let value = str_trim(input);
        if value.is_empty() {
            return Ok(None);
        }
        if contains_line_break(input) {
            return Err(DomainError::InvalidTask);
        }
        Ok(Some(CurrentTask(value.to_owned())))
    }

    pub fn as_str(&self) -> (r: &str)
        ensures
            r@ == self@,
    {
        self.0.as_str()
    }

    /// An exact copy.
    pub fn copy(&self) -> (r: Self)
        ensures
            r == *self,
    {
        CurrentTask(self.0.clone())
    }

    /// Whether two tasks have the same text.
    pub fn same_text(&self, other: &Self) -> (r: bool)
        ensures
            r == (self@ == other@),
    {
        self.0 == other.0
    }
}

/// An exact copy of an optional task.
pub fn copy_task(task: &Option<CurrentTask>) -> (r: Option<CurrentTask>)
    ensures
        r == *task,
{
    match task {
        Some(t) => Some(t.copy()),
        None => None,
    }
}

/// Whether two optional tasks hold the same text.
pub fn same_task(a: &Option<CurrentTask>, b: &Option<CurrentTask>) -> (r: bool)
    ensures
        r == (task_view(*a) == task_view(*b)),
{
    match (a, b) {
        (Some(x), Some(y)) => x.same_text(y),
        (None, None) => true,
        _ => false,
    }
}

fn contains_line_break(s: &str) -> (r: bool)
    ensures
        r == has_line_break(s@),
{
    let mut found = false;
    for c in it: s.chars()
        invariant
            it.seq() == s@,
            found == (exists|i: int| 0 <= i < it.index() && is_line_break(#[trigger] s@[i])),
    {
        let n = c as u32;
        if (0x0A <= n && n <= 0x0D) || n == 0x85 || n == 0x2028 || n == 0x2029 {
            found = true;
        }
    }
    found
}

#[derive(Debug, Clone, PartialEq, Eq)]
pub struct Session {
    pub id: SessionId,
    pub kind: SessionKind,
    pub current_task: Option<CurrentTask>,
    pub planned_duration_ms: u64,
    pub started_at: Timestamp,
    pub elapsed_ms: u64,
    pub continued_from_quick_start: Option<SessionId>,
    pub end: Option<SessionEnd>,
}

impl Session {
    pub open spec fn spec_remaining_ms(self) -> u64 {
        if self.planned_duration_ms >= self.elapsed_ms {
            (self.planned_duration_ms - self.elapsed_ms) as u64
        } else {
            0
        }
    }

    /// Planned time not yet credited, never below zero.
    pub fn remaining_ms(&self) -> (r: u64)
        ensures
            r == self.spec_remaining_ms(),
    {
        self.planned_duration_ms.saturating_sub(self.elapsed_ms)
    }

    /// An exact copy.
    pub fn copy(&self) -> (r: Self)
        ensures
            r == *self,
    {
        Session {
            id: self.id,
            kind: self.kind,
            current_task: copy_task(&self.current_task),
            planned_duration_ms: self.planned_duration_ms,
            started_at: self.started_at,
            elapsed_ms: self.elapsed_ms,
            continued_from_quick_start: self.continued_from_quick_start,
            end: self.end,
        }
    }
}

#[derive(Debug, Clone, Copy, PartialEq, Eq, Structural)]
pub struct SessionEnd {
    pub ended_at: Timestamp,
    pub outcome: SessionOutcome,
}

#[derive(Debug, Clone, Copy, PartialEq, Eq, Structural)]
pub enum TimerState {
    Running { run: RunState },
    Interrupted { interruption: Interruption },
}

#[derive(Debug, Clone, Copy, PartialEq, Eq, Structural)]
pub struct RunState {
    pub started_at: Timestamp,
    pub elapsed_ms_at_start: u64,
    pub last_confirmed_at: Timestamp,
    pub time_uncertainty: Option<TimeUncertainty>,
}

#[derive(Debug, Clone, Copy, PartialEq, Eq, Structural)]
pub struct Interruption {
    pub id: InterruptionId,
    pub kind: InterruptionKind,
    pub started_at: Timestamp,
    pub recorded_at: Timestamp,
    pub time_uncertainty: Option<TimeUncertainty>,
    pub end: Option<InterruptionEnd>,
}

#[derive(Debug, Clone, Copy, PartialEq, Eq, Hash, Structural)]
pub enum InterruptionKind {
    Pause,
    Distraction,
    AppExit,
    ObservationGap,
}

#[derive(Debug, Clone, Copy, PartialEq, Eq, Structural)]
pub enum InterruptionOutcome {
    Resumed,
    Returned,
    SessionEnded { session_outcome: SessionOutcome },
}

#[derive(Debug, Clone, Copy, PartialEq, Eq, Hash, Structural)]
pub enum TimeUncertainty {
    ClockMovedBackward,
    ClockDiscontinuity,
    InsufficientClockEvidence,
}

#[derive(Debug, Clone, Copy, PartialEq, Eq, Structural)]
pub enum MeasuredDuration {
    Known { elapsed_ms: u64 },
    Unknown { reason: TimeUncertainty },
}

#[derive(Debug, Clone, Copy, PartialEq, Eq, Structural)]
pub struct InterruptionEnd {
    pub ended_at: Timestamp,
    pub outcome: InterruptionOutcome,
    pub duration: MeasuredDuration,
}

#[derive(Debug, Clone, Copy, PartialEq, Eq, Default, Structural)]
pub struct RoundProgress {
    pub completed_focuses_in_round: u32,
}

#[derive(Debug, Clone, PartialEq, Eq)]
pub struct PomodoroState {
    pub settings: TimerConfig,
    pub round_progress: RoundProgress,
    pub state: ProgressState,
}

impl PomodoroState {
    /// An exact copy.
    pub fn copy(&self) -> (r: Self)
        ensures
            r == *self,
    {
        PomodoroState {
            settings: self.settings,
            round_progress: self.round_progress,
            state: self.state.copy(),
        }
    }
}

#[derive(Debug, Clone, PartialEq, Eq)]
pub enum ProgressState {
    Ready { next_kind: SessionKind, current_task_draft: Option<CurrentTask> },
    Active { session: Session, timer: TimerState },
    AwaitingQuickStartDecision {
        quick_start_session_id: SessionId,
        current_task: Option<CurrentTask>,
    },
}

impl ProgressState {
    /// An exact copy.
    pub fn copy(&self) -> (r: Self)
        ensures
            r == *self,
    {
        match self {
            ProgressState::Ready { next_kind, current_task_draft } => ProgressState::Ready {
                next_kind: *next_kind,
                current_task_draft: copy_task(current_task_draft),
            },
            ProgressState::Active { session, timer } => ProgressState::Active {
                session: session.copy(),
                timer: *timer,
            },
            ProgressState::AwaitingQuickStartDecision { quick_start_session_id, current_task } => {
                ProgressState::AwaitingQuickStartDecision {
                    quick_start_session_id: *quick_start_session_id,
                    current_task: copy_task(current_task),
                }
            },
        }
    }
}

#[derive(Debug, Clone, Copy, PartialEq, Eq, Structural)]
pub enum QuickStartChoice {
    Finish,
    Continue,
}

#[derive(Debug, Clone, Copy, PartialEq, Eq, Structural)]
pub enum QuickStartDecision {
    Finish,
    Continue { focus_session_id: SessionId },
}

#[derive(Debug, Clone, PartialEq, Eq, Default)]
pub struct History {
    pub sessions: Vec<Session>,
    pub events: Vec<HistoryEvent>,
}

impl History {
    /// A copy with the same sessions and events.
    pub fn copy(&self) -> (r: Self)
        ensures
            r.sessions@ == self.sessions@,
            r.events@ == self.events@,
    {
        let mut sessions: Vec<Session> = Vec::new();
        let mut i: usize = 0;
        while i < self.sessions.len()
            invariant
                i <= self.sessions.len(),
                sessions@ == self.sessions@.subrange(0, i as int),
            decreases self.sessions.len() - i,
        {
            sessions.push(self.sessions[i].copy());
            i += 1;
            assert(sessions@ =~= self.sessions@.subrange(0, i as int));
        }
        let mut events: Vec<HistoryEvent> = Vec::new();
        let mut j: usize = 0;
        while j < self.events.len()
            invariant
                j <= self.events.len(),
                events@ == self.events@.subrange(0, j as int),
            decreases self.events.len() - j,
        {
            events.push(self.events[j]);
            j += 1;
            assert(events@ =~= self.events@.subrange(0, j as int));
        }
        assert(sessions@ =~= self.sessions@);
        assert(events@ =~= self.events@);
        History { sessions, events }
    }
}

#[derive(Debug, Clone, Copy, PartialEq, Eq, Structural)]
pub struct HistoryEvent {
    pub sequence: u64,
    pub session_id: SessionId,
    pub effective_at: Timestamp,
    pub recorded_at: Timestamp,
    pub payload: EventKind,
}

#[derive(Debug, Clone, Copy, PartialEq, Eq, Structural)]
pub enum EventKind {
    RunIntervalRecorded {
        started_at: Timestamp,
        ended_at: Timestamp,
        credited_ms: u64,
        time_uncertainty: Option<TimeUncertainty>,
    },
    InterruptionStarted { interruption_id: InterruptionId, interruption_kind: InterruptionKind },
    InterruptionEnded { interruption_id: InterruptionId, end: InterruptionEnd },
    QuickStartDecisionMade { decision: QuickStartDecision },
    AppClosing,
    AppRestored,
    ObservationGapDetected {
        last_confirmed_at: Timestamp,
        detected_at: Timestamp,
        reason: GapReason,
    },
}

#[derive(Debug, Clone, Copy, PartialEq, Eq, Hash, Structural)]
pub enum GapReason {
    Restart,
    ObservationDiscontinuity,
    ClockAnomaly,
}

/// Allocated atomically with the domain change, within the adopted save lineage.
#[derive(Debug, Clone, Copy, PartialEq, Eq, Structural)]
pub struct IdAllocators {
    pub next_session_id: u64,
    pub next_interruption_id: u64,
    pub next_event_sequence: u64,
}

impl IdAllocators {
    pub open spec fn initial() -> Self {
        IdAllocators { next_session_id: 1, next_interruption_id: 1, next_event_sequence: 1 }
    }
}

impl Default for IdAllocators {
    /// Every allocator starts at one.
    fn default() -> (r: Self)
        ensures
            r == Self::initial(),
    {
        IdAllocators { next_session_id: 1, next_interruption_id: 1, next_event_sequence: 1 }
    }
}

#[derive(Debug, Clone, Copy, PartialEq, Eq, Default, Structural)]
pub struct ReflectionSummary {
    pub work_ms: u64,
    pub completed_focus_sessions: u64,
    pub distractions: u64,
    pub returns: u64,
}

#[derive(Debug, Clone, PartialEq, Eq)]
pub enum DomainError {
    InvalidConfig(ConfigError),
    InvalidTask,
    InvalidOperation,
    WrongSession,
    ObservationRequired,
    Overflow,
    InvalidState(&'static str),
}

impl From<ConfigError> for DomainError {
    fn from(value: ConfigError) -> (r: Self)
        ensures
            r == DomainError::InvalidConfig(value),
    {
        DomainError::InvalidConfig(value)
    }
}

impl vstd::std_specs::convert::FromSpecImpl<ConfigError> for DomainError {
    open spec fn obeys_from_spec() -> bool {
        true
    }

    open spec fn from_spec(v: ConfigError) -> DomainError {
        DomainError::InvalidConfig(v)
    }
}

} // verus!
