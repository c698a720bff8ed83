//! Per-bind status registry: one slot per bind, snapshot-readable.
//!
//! A bind's visible state only ever moves forward along
//! `Pending -> Connecting -> Bound`, or jumps from any non-error state to a
//! terminal `Error`; it never regresses.

use vstd::prelude::*;

verus! {

/// The lifecycle state of one bind as shown to operators.
#[derive(Clone, Debug)]
pub enum BindState {
    Pending,
    Connecting,
    Bound,
    Error(String),
}

/// Mathematical view of a [`BindState`]: the error message as a character
/// sequence.
pub enum BindStateView {
    Pending,
    Connecting,
    Bound,
    Error(Seq<char>),
}

impl View for BindState {
    type V = BindStateView;

    open spec fn view(&self) -> BindStateView {
        match self {
            BindState::Pending => BindStateView::Pending,
            BindState::Connecting => BindStateView::Connecting,
            BindState::Bound => BindStateView::Bound,
            BindState::Error(msg) => BindStateView::Error(msg@),
        }
    }
}

impl BindState {
    /// A deep copy whose view is the same.
    pub fn duplicate(&self) -> (r: BindState)
        ensures
            r@ == self@,
    {
        match self {
            BindState::Pending => BindState::Pending,
            BindState::Connecting => BindState::Connecting,
            BindState::Bound => BindState::Bound,
            BindState::Error(msg) => BindState::Error(msg.clone()),
        }
    }

    /// A short lowercase label for rendering.
    pub fn label(&self) -> (r: &'static str)
        ensures
            self@ is Pending ==> r@ == "pending"@,
            self@ is Connecting ==> r@ == "connecting"@,
            self@ is Bound ==> r@ == "bound"@,
            self@ is Error ==> r@ == "error"@,
    {
        match self {
            BindState::Pending => "pending",
            BindState::Connecting => "connecting",
            BindState::Bound => "bound",
            BindState::Error(_) => "error",
        }
    }
}

/// How far along the lifecycle a state is.
pub open spec fn state_rank(s: BindStateView) -> int {
    match s {
        BindStateView::Pending => 0,
        BindStateView::Connecting => 1,
        BindStateView::Bound => 2,
        BindStateView::Error(_) => 3,
    }
}

/// The transitions a session driver may publish: one step forward on the
/// main line, or a jump from any non-error state into `Error`.
pub open spec fn step_ok(a: BindStateView, b: BindStateView) -> bool {
    ||| (a is Pending && b is Connecting)
    ||| (a is Connecting && b is Bound)
    ||| (!(a is Error) && b is Error)
}

/// The state a step of the main line reaches.
pub open spec fn main_line(i: int) -> BindStateView {
    if i == 0 {
        BindStateView::Pending
    } else if i == 1 {
        BindStateView::Connecting
    } else {
        BindStateView::Bound
    }
}

proof fn lemma_path_position(path: Seq<BindStateView>, i: int)
    requires
        path.len() > 0,
        path[0] is Pending,
        forall|j: int| 0 <= j < path.len() - 1 ==> step_ok(#[trigger] path[j], path[j + 1]),
        0 <= i < path.len(),
        !(path[i] is Error),
    ensures
        i <= 2,
        path[i] == main_line(i),
    decreases i,
{
    if i > 0 {
        assert(step_ok(path[i - 1], path[i]));
        lemma_path_position(path, i - 1);
    }
}

/// The shape of every publishable state path: as long as a state is not an
/// error it is exactly the corresponding point of
/// `[Pending, Connecting, Bound]` (so the non-error prefix never regresses
/// and never skips), and an `Error` state is terminal.
pub proof fn lemma_session_path_shape(path: Seq<BindStateView>)
    requires
        path.len() > 0,
        path[0] is Pending,
        forall|j: int| 0 <= j < path.len() - 1 ==> step_ok(#[trigger] path[j], path[j + 1]),
    ensures
        forall|i: int|
            0 <= i < path.len() && !((#[trigger] path[i]) is Error) ==> i <= 2 && path[i]
                == main_line(i),
        forall|i: int| 0 <= i < path.len() && (#[trigger] path[i]) is Error ==> i == path.len() - 1,
{
    assert forall|i: int| 0 <= i < path.len() && !((#[trigger] path[i]) is Error) implies i <= 2
        && path[i] == main_line(i) by {
        lemma_path_position(path, i);
    }
    assert forall|i: int| 0 <= i < path.len() && (#[trigger] path[i]) is Error implies i
        == path.len() - 1 by {
        if i < path.len() - 1 {
            assert(step_ok(path[i], path[i + 1]));
        }
    }
}

/// What happened to a session, as fed to [`session_transition`].
pub enum SessionEvent {
    /// The driver started working on the bind.
    Started,
    /// The connection was opened and the bind request was accepted.
    Established,
    /// The session failed for good with the given description.
    Failed(String),
}

/// The next state a session driver publishes for an event, or `None` when
/// the event does not move this state.  Every state it returns is a legal
/// forward step, so a driver that only publishes what this function returns
/// can never regress a bind's visible state.
pub fn session_transition(current: &BindState, event: SessionEvent) -> (r: Option<BindState>)
    ensures
        r matches Some(next) ==> step_ok(current@, next@),
        current@ is Pending && event is Started ==> (r matches Some(next) && next@
            is Connecting),
        current@ is Connecting && event is Established ==> (r matches Some(next) && next@
            is Bound),
        event is Failed && !(current@ is Error) ==> (r is Some && (r->0)@ == BindStateView::Error(
            (event->Failed_0)@,
        )),
        !(current@ is Pending) && event is Started ==> r is None,
        !(current@ is Connecting) && event is Established ==> r is None,
        current@ is Error ==> r is None,
{
    match event {
        SessionEvent::Started => match current {
            BindState::Pending => Some(BindState::Connecting),
            _ => None,
        },
        SessionEvent::Established => match current {
            BindState::Connecting => Some(BindState::Bound),
            _ => None,
        },
        SessionEvent::Failed(msg) => match current {
            BindState::Error(_) => None,
            _ => Some(BindState::Error(msg)),
        },
    }
}

/// One bind's slot in the registry.
#[derive(Clone, Debug)]
pub struct BindStatus {
    pub state: BindState,
    pub last_message_id: Option<String>,
}

/// Mathematical view of a [`BindStatus`].
pub struct BindStatusView {
    pub state: BindStateView,
    pub last_message_id: Option<Seq<char>>,
}

impl View for BindStatus {
    type V = BindStatusView;

    open spec fn view(&self) -> BindStatusView {
        BindStatusView {
            state: self.state@,
            last_message_id: match self.last_message_id {
                Option::Some(id) => Option::Some(id@),
                Option::None => Option::None,
            },
        }
    }
}

impl BindStatus {
    /// A deep copy whose view is the same.
    pub fn duplicate(&self) -> (r: BindStatus)
        ensures
            r@ == self@,
    {
        BindStatus {
            state: self.state.duplicate(),
            last_message_id: match &self.last_message_id {
                Option::Some(id) => Option::Some(id.clone()),
                Option::None => Option::None,
            },
        }
    }
}

/// The registry: a fixed-size sequence of per-bind slots.  Writes to an
/// out-of-range index are silently dropped, so the operations are total.
pub struct BindTracker {
    statuses: Vec<BindStatus>,
}

impl View for BindTracker {
    type V = Seq<BindStatusView>;

    closed spec fn view(&self) -> Seq<BindStatusView> {
        self.statuses@.map(|i: int, s: BindStatus| s@)
    }
}

impl BindTracker {
    /// A registry of `size` slots, all `Pending` with no message id.
    pub fn new(size: usize) -> (r: BindTracker)
        ensures
            r@.len() == size,
            forall|i: int|
                0 <= i < size ==> (#[trigger] r@[i]).state is Pending && r@[i].last_message_id
                    is None,
    {
        let mut statuses: Vec<BindStatus> = Vec::new();
        let mut i: usize = 0;
        while i < size
            invariant
                i <= size,
                statuses@.len() == i,
                forall|j: int|
                    0 <= j < i ==> (#[trigger] statuses@[j])@.state is Pending
                        && statuses@[j]@.last_message_id is None,
            decreases size - i,
        {
            statuses.push(BindStatus { state: BindState::Pending, last_message_id: None });
            i += 1;
        }
        BindTracker { statuses }
    }

    /// Replace the state of slot `idx`; out of range, change nothing.
    pub fn set_state(&mut self, idx: usize, state: BindState)
        ensures
            final(self)@.len() == old(self)@.len(),
            idx < old(self)@.len() ==> final(self)@ =~= old(self)@.update(
                idx as int,
                BindStatusView { state: state@, ..old(self)@[idx as int] },
            ),
            idx >= old(self)@.len() ==> final(self)@ =~= old(self)@,
    {
        if idx < self.statuses.len() {
            let slot = &mut self.statuses[idx];
            slot.state = state;
        }
    }

    /// Replace the last seen message id of slot `idx`; out of range, change
    /// nothing.
    pub fn set_last_message_id(&mut self, idx: usize, message_id: Option<String>)
        ensures
            final(self)@.len() == old(self)@.len(),
            idx < old(self)@.len() ==> final(self)@ =~= old(self)@.update(
                idx as int,
                BindStatusView {
                    last_message_id: match message_id {
                        Option::Some(id) => Option::Some(id@),
                        Option::None => Option::None,
                    },
                    ..old(self)@[idx as int]
                },
            ),
            idx >= old(self)@.len() ==> final(self)@ =~= old(self)@,
    {
        if idx < self.statuses.len() {
            let slot = &mut self.statuses[idx];
            slot.last_message_id = message_id;
        }
    }

    /// The status of one slot, deep-copied; `None` out of range.
    pub fn status(&self, idx: usize) -> (r: Option<BindStatus>)
        ensures
            idx < self@.len() ==> (r matches Some(s) && s@ == self@[idx as int]),
            idx >= self@.len() ==> r is None,
    {
        if idx < self.statuses.len() {
            Some(self.statuses[idx].duplicate())
        } else {
            None
        }
    }

    /// A deep copy of every slot, so the reader never observes later
    /// mutations.
    pub fn snapshot(&self) -> (r: Vec<BindStatus>)
        ensures
            r@.len() == self@.len(),
            forall|i: int| 0 <= i < r@.len() ==> (#[trigger] r@[i])@ == self@[i],
    {
        let mut out: Vec<BindStatus> = Vec::new();
        let mut i: usize = 0;
        while i < self.statuses.len()
            invariant
                i <= self.statuses@.len(),
                out@.len() == i,
                forall|j: int| 0 <= j < i ==> (#[trigger] out@[j])@ == self@[j],
            decreases self.statuses@.len() - i,
        {
            out.push(self.statuses[i].duplicate());
            i += 1;
        }
        out
    }
}

} // verus!
