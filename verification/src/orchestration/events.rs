use vstd::prelude::*;
use crate::keyed::{Duplicate, StringTable};
use crate::orchestration::config::SessionStateStatus;
use crate::orchestration::errors::{orchestration_prefix, OrchestrationError};

verus! {

/// What the session tracker reads of an orchestration event that names a
/// session. Times are milliseconds since the Unix epoch.
#[derive(Debug, Clone)]
pub enum SessionEvent {
    Started { flow_id: String, timestamp: i64 },
    Completed { timestamp: i64 },
    BlockStarted { block_id: String },
    Failed { error: OrchestrationError },
    /// Any other event of the session.
    Other,
}

/// What events have told of one session.
#[derive(Debug, Clone)]
pub struct SessionState {
    pub session_id: String,
    pub status: SessionStateStatus,
    pub flow_id: Option<String>,
    pub current_block: Option<String>,
    pub executed_blocks: Vec<String>,
    pub started_at: Option<i64>,
    pub completed_at: Option<i64>,
    pub last_error: Option<String>,
}

/// The abstract content of a [`SessionState`].
pub struct SessionStateView {
    pub session_id: Seq<char>,
    pub status: SessionStateStatus,
    pub flow_id: Option<Seq<char>>,
    pub current_block: Option<Seq<char>>,
    pub executed_blocks: Seq<Seq<char>>,
    pub started_at: Option<i64>,
    pub completed_at: Option<i64>,
    pub last_error: Option<Seq<char>>,
}

/// The text of an optional string.
pub open spec fn opt_text(o: Option<String>) -> Option<Seq<char>> {
    match o {
        Some(s) => Some(s@),
        None => None,
    }
}

impl View for SessionState {
    type V = SessionStateView;

    open spec fn view(&self) -> SessionStateView {
        SessionStateView {
            session_id: self.session_id@,
            status: self.status,
            flow_id: opt_text(self.flow_id),
            current_block: opt_text(self.current_block),
            executed_blocks: self.executed_blocks@.map_values(|b: String| b@),
            started_at: self.started_at,
            completed_at: self.completed_at,
            last_error: opt_text(self.last_error),
        }
    }
}

/// The state of a session no event has told of yet.
pub open spec fn fresh_state(session_id: Seq<char>) -> SessionStateView {
    SessionStateView {
        session_id,
        status: SessionStateStatus::Pending,
        flow_id: None,
        current_block: None,
        executed_blocks: Seq::empty(),
        started_at: None,
        completed_at: None,
        last_error: None,
    }
}

/// A session's state after `e`: a start marks it running from the flow and
/// time given; a completion marks it completed at that time; a block's start
/// makes it the current block and adds it to the executed ones; a failure
/// marks it failed with the error's message; anything else leaves it as it was.
pub open spec fn after_event(s: SessionStateView, e: SessionEvent) -> SessionStateView {
    match e {
        SessionEvent::Started { flow_id, timestamp } => SessionStateView {
            status: SessionStateStatus::Running,
            flow_id: Some(flow_id@),
            started_at: Some(timestamp),
            ..s
        },
        SessionEvent::Completed { timestamp } => SessionStateView {
            status: SessionStateStatus::Completed,
            completed_at: Some(timestamp),
            ..s
        },
        SessionEvent::BlockStarted { block_id } => SessionStateView {
            current_block: Some(block_id@),
            executed_blocks: s.executed_blocks.push(block_id@),
            ..s
        },
        SessionEvent::Failed { error } => SessionStateView {
            status: SessionStateStatus::Failed,
            last_error: Some(orchestration_prefix(error@.0) + error@.1),
            ..s
        },
        SessionEvent::Other => s,
    }
}

impl SessionState {
    /// A pending session that no event has told of.
    pub fn new(session_id: String) -> (s: Self)
        ensures
            s@ == fresh_state(session_id@),
    {
        let s = SessionState {
            session_id,
            status: SessionStateStatus::Pending,
            flow_id: None,
            current_block: None,
            executed_blocks: Vec::new(),
            started_at: None,
            completed_at: None,
            last_error: None,
        };
        assert(s@.executed_blocks =~= Seq::<Seq<char>>::empty());
        s
    }

    /// Applies one event of the session.
    pub fn apply(&mut self, event: &SessionEvent)
        ensures
            final(self)@ == after_event(old(self)@, *event),
    {
        match event {
            SessionEvent::Started { flow_id, timestamp } => {
                self.status = SessionStateStatus::Running;
                self.flow_id = Some(flow_id.clone());
                self.started_at = Some(*timestamp);
            },
            SessionEvent::Completed { timestamp } => {
                self.status = SessionStateStatus::Completed;
                self.completed_at = Some(*timestamp);
            },
            SessionEvent::BlockStarted { block_id } => {
                let ghost before = self.executed_blocks@.map_values(|b: String| b@);
                self.current_block = Some(block_id.clone());
                self.executed_blocks.push(block_id.clone());
                assert(self.executed_blocks@.map_values(|b: String| b@) =~= before.push(block_id@));
            },
            SessionEvent::Failed { error } => {
                self.status = SessionStateStatus::Failed;
                self.last_error = Some(error.message());
            },
            SessionEvent::Other => {},
        }
    }
}

impl SessionState {
    /// A copy of the state.
    pub fn copy(&self) -> (r: Self)
        ensures
            r@ == self@,
    {
        let mut blocks: Vec<String> = Vec::new();
        let mut i: usize = 0;
        while i < self.executed_blocks.len()
            invariant
                i <= self.executed_blocks@.len(),
                blocks@.len() == i,
                forall|j: int| 0 <= j < i ==> #[trigger] blocks@[j] == self.executed_blocks@[j],
            decreases self.executed_blocks.len() - i,
        {
            blocks.push(self.executed_blocks[i].clone());
            i = i + 1;
        }
        let r = SessionState {
            session_id: self.session_id.clone(),
            status: self.status,
            flow_id: self.flow_id.duplicate(),
            current_block: self.current_block.duplicate(),
            executed_blocks: blocks,
            started_at: self.started_at,
            completed_at: self.completed_at,
            last_error: self.last_error.duplicate(),
        };
        assert(r.executed_blocks@ =~= self.executed_blocks@);
        assert(r@.executed_blocks =~= self@.executed_blocks);
        r
    }
}

/// Keeps, per session, what the events have told of it.
#[derive(Debug)]
pub struct StateTrackingEventHandler {
    pub session_states: StringTable<SessionState>,
}

impl StateTrackingEventHandler {
    /// A tracker that has seen no event.
    pub fn new() -> (h: Self)
        ensures
            h.session_states.wf(),
            h.session_states.map() == Map::<Seq<char>, SessionState>::empty(),
    {
        StateTrackingEventHandler { session_states: StringTable::new() }
    }

    /// What the events have told of the session `session_id`, if any.
    pub fn get_session_state(&self, session_id: &str) -> (r: Option<SessionState>)
        requires
            self.session_states.wf(),
        ensures
            self.session_states.map().contains_key(session_id@)
                ==> (r matches Some(s) && s@ == self.session_states.map()[session_id@]@),
            !self.session_states.map().contains_key(session_id@) ==> r is None,
    {
        match self.session_states.get(session_id) {
            Some(s) => Some(s.copy()),
            None => None,
        }
    }

    /// Takes in an event: one that names a session updates that session's
    /// state, starting from a fresh one; one that names none changes nothing.
    pub fn handle_event(&mut self, session_id: Option<&str>, event: &SessionEvent)
        requires
            old(self).session_states.wf(),
        ensures
            final(self).session_states.wf(),
            match session_id {
                None => final(self).session_states.map() == old(self).session_states.map(),
                Some(id) => {
                    let before = if old(self).session_states.map().contains_key(id@) {
                        old(self).session_states.map()[id@]@
                    } else {
                        fresh_state(id@)
                    };
                    &&& final(self).session_states.map().dom() == old(self).session_states.map().dom().insert(id@)
                    &&& final(self).session_states.map()[id@]@ == after_event(before, *event)
                    &&& forall|k: Seq<char>| k != id@ && #[trigger] old(self).session_states.map().contains_key(k)
                        ==> final(self).session_states.map()[k] == old(self).session_states.map()[k]
                },
            },
    {
        if let Some(id) = session_id {
            let mut state = match self.session_states.get(id) {
                Some(s) => s.copy(),
                None => SessionState::new(String::from_str(id)),
            };
            state.apply(event);
            self.session_states.insert(String::from_str(id), state);
        }
    }
}

/// A session's executed blocks are the blocks whose start events it was told
/// of, in order: applying events keeps what was recorded and adds each
/// started block at the end.
pub proof fn lemma_started_blocks_are_recorded_in_order(s: SessionStateView, events: Seq<SessionEvent>)
    ensures
        events.fold_left(s, |acc: SessionStateView, e: SessionEvent| after_event(acc, e)).executed_blocks
            == s.executed_blocks + started_blocks(events),
    decreases events.len(),
{
    if events.len() > 0 {
        let init = events.drop_last();
        lemma_started_blocks_are_recorded_in_order(s, init);
        assert(events.drop_last() == init);
        match events.last() {
            SessionEvent::BlockStarted { block_id } => {
                assert(s.executed_blocks + started_blocks(init).push(block_id@)
                    =~= (s.executed_blocks + started_blocks(init)).push(block_id@));
            },
            _ => {},
        }
    } else {
        assert(s.executed_blocks + Seq::<Seq<char>>::empty() =~= s.executed_blocks);
    }
}

/// The blocks the start events of `events` name, in order.
pub open spec fn started_blocks(events: Seq<SessionEvent>) -> Seq<Seq<char>>
    decreases events.len(),
{
    if events.len() == 0 {
        Seq::empty()
    } else {
        let init = started_blocks(events.drop_last());
        match events.last() {
            SessionEvent::BlockStarted { block_id } => init.push(block_id@),
            _ => init,
        }
    }
}

} // verus!
