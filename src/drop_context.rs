use vstd::prelude::*;

use crate::data_reader::{
    formats_for_item_spec, item_count_spec, loaded, string_views, PlatformDataReader,
};

verus! {

/// No drop effect.
pub const DROPEFFECT_NONE: u32 = 0;
/// The data is copied.
pub const DROPEFFECT_COPY: u32 = 1;
/// The data is moved.
pub const DROPEFFECT_MOVE: u32 = 2;
/// The data is linked.
pub const DROPEFFECT_LINK: u32 = 4;

/// The operation a delegate chose for a drag.
#[derive(Debug, Clone, Copy, PartialEq, Eq, Structural)]
pub enum DropOperation {
    NoEffect,
    UserCancelled,
    Forbidden,
    Copy,
    Move,
    Link,
}

pub open spec fn platform_effect(op: DropOperation) -> u32 {
    match op {
        DropOperation::Copy => DROPEFFECT_COPY,
        DropOperation::Move => DROPEFFECT_MOVE,
        DropOperation::Link => DROPEFFECT_LINK,
        _ => DROPEFFECT_NONE,
    }
}

/// The operations allowed by a platform effect mask, in the order copy, move, link.
pub open spec fn allowed_operations_spec(mask: u32) -> Seq<DropOperation> {
    let c = if mask & DROPEFFECT_COPY != 0 {
        seq![DropOperation::Copy]
    } else {
        Seq::empty()
    };
    let m = if mask & DROPEFFECT_MOVE != 0 {
        seq![DropOperation::Move]
    } else {
        Seq::empty()
    };
    let l = if mask & DROPEFFECT_LINK != 0 {
        seq![DropOperation::Link]
    } else {
        Seq::empty()
    };
    c + m + l
}

impl DropOperation {
    /// The platform effect of the operation.
    pub fn to_platform(self) -> (r: u32)
        ensures
            r == platform_effect(self),
    {
        match self {
            DropOperation::Copy => DROPEFFECT_COPY,
            DropOperation::Move => DROPEFFECT_MOVE,
            DropOperation::Link => DROPEFFECT_LINK,
            _ => DROPEFFECT_NONE,
        }
    }

    /// The operations a platform effect mask allows.
    pub fn from_platform_mask(mask: u32) -> (r: Vec<DropOperation>)
        ensures
            r@ == allowed_operations_spec(mask),
    {
        let mut r: Vec<DropOperation> = Vec::new();
        if mask & DROPEFFECT_COPY != 0 {
            r.push(DropOperation::Copy);
        }
        if mask & DROPEFFECT_MOVE != 0 {
            r.push(DropOperation::Move);
        }
        if mask & DROPEFFECT_LINK != 0 {
            r.push(DropOperation::Link);
        }
        assert(r@ =~= allowed_operations_spec(mask));
        r
    }
}

/// One thing the target must do, in order, on behalf of a session.
#[derive(Debug, Clone, Copy, PartialEq, Eq, Structural)]
pub enum DropAction {
    /// Create the session's data reader and register it with the delegate.
    CreateSession(i64),
    /// Send the delegate an update event; its answer is recorded with
    /// `record_operation`.
    SendDropUpdate(i64),
    /// Tell the delegate the drag left the target.
    SendDropLeave(i64),
    /// Ask the delegate to perform the drop, offering the last operation it chose.
    SendPerformDrop(i64, DropOperation),
    /// If the provider supports deferred completion: keep its handle with this
    /// effect (see `begin_deferred_completion`), start its operation, and make
    /// the session's reader read asynchronously.
    BeginDeferredCompletion(i64, u32),
    /// Run the event loop until the delegate has completed the drop.
    AwaitPerformDrop(i64),
    /// Tell the delegate the session ended.
    SendDropEnded(i64),
}

/// The answer of the target to one provider callback.
pub struct Reaction {
    pub actions: Vec<DropAction>,
    /// The effect reported back to the provider.
    pub effect: u32,
}

#[derive(Debug, Clone, Copy, PartialEq, Eq, Structural)]
pub struct Session {
    pub id: i64,
    pub is_inside: bool,
    pub missing_drop_end: bool,
    pub last_operation: DropOperation,
}

/// The state of a drop target: at most one session, the number of the next
/// session, and every session that has been ended so far, in order.
pub ghost struct DropContextView {
    pub next_session_id: int,
    pub current: Option<Session>,
    pub ended: Seq<i64>,
}

/// The per-target state machine that turns provider callbacks into session
/// transitions and notifications for the delegate.
pub struct PlatformDropContext {
    next_session_id: i64,
    current_session: Option<Session>,
    ended: Ghost<Seq<i64>>,
}

impl View for PlatformDropContext {
    type V = DropContextView;

    closed spec fn view(&self) -> DropContextView {
        DropContextView {
            next_session_id: self.next_session_id as int,
            current: self.current_session,
            ended: self.ended@,
        }
    }
}

/// Sessions are numbered from 0 in order of creation, and all but the current
/// one have ended, in that order.
pub open spec fn wf(v: DropContextView) -> bool {
    &&& 0 <= v.next_session_id
    &&& match v.current {
        Some(s) => s.id == v.next_session_id - 1 && v.ended.len() == v.next_session_id - 1,
        None => v.ended.len() == v.next_session_id,
    }
    &&& forall|i: int| 0 <= i < v.ended.len() ==> v.ended[i] == i
}

/// Every session created so far but the current one has ended exactly once,
/// and the current one has not ended.
pub open spec fn ended_exactly_once(v: DropContextView) -> bool {
    &&& v.ended.no_duplicates()
    &&& forall|id: i64|
        v.ended.contains(id) <==> (0 <= id < v.next_session_id && !(v.current is Some
            && v.current.unwrap().id == id))
}

/// The ids of the sessions that `actions` end.
pub open spec fn ended_ids(actions: Seq<DropAction>) -> Seq<i64>
    decreases actions.len(),
{
    if actions.len() == 0 {
        Seq::empty()
    } else {
        let rest = ended_ids(actions.drop_last());
        match actions.last() {
            DropAction::SendDropEnded(id) => rest.push(id),
            _ => rest,
        }
    }
}

/// A state after `actions`: the ended sessions grow by those the actions end.
pub open spec fn after(
    v: DropContextView,
    next: int,
    current: Option<Session>,
    actions: Seq<DropAction>,
) -> DropContextView {
    DropContextView { next_session_id: next, current, ended: v.ended + ended_ids(actions) }
}

/// Actions that end the current session, leaving it first if still inside.
pub open spec fn end_stale_actions(s: Session) -> Seq<DropAction> {
    if s.is_inside {
        seq![DropAction::SendDropLeave(s.id), DropAction::SendDropEnded(s.id)]
    } else {
        seq![DropAction::SendDropEnded(s.id)]
    }
}

/// Drag enters the target. A session left from an earlier drag is ended
/// first, unless a drag from this process is still running; then the session
/// is found or created, marked inside, and the delegate is updated.
pub open spec fn enter_spec(v: DropContextView, has_data: bool, local_dragging: bool) -> (
    DropContextView,
    Seq<DropAction>,
    u32,
) {
    let stale = v.current is Some && !local_dragging;
    let a1 = if stale {
        end_stale_actions(v.current.unwrap())
    } else {
        Seq::empty()
    };
    let cur1 = if stale {
        None
    } else {
        v.current
    };
    if has_data {
        let (s, next, a2) = match cur1 {
            Some(s) => (s, v.next_session_id, Seq::<DropAction>::empty()),
            None => (
                Session {
                    id: v.next_session_id as i64,
                    is_inside: true,
                    missing_drop_end: false,
                    last_operation: DropOperation::NoEffect,
                },
                v.next_session_id + 1,
                seq![DropAction::CreateSession(v.next_session_id as i64)],
            ),
        };
        let s2 = Session { is_inside: true, missing_drop_end: false, ..s };
        let actions = a1 + a2 + seq![DropAction::SendDropUpdate(s.id)];
        (after(v, next, Some(s2), actions), actions, platform_effect(s2.last_operation))
    } else {
        (after(v, v.next_session_id, cur1, a1), a1, DROPEFFECT_NONE)
    }
}

/// Drag moves over the target: the delegate is updated, and the effect is
/// the last one it chose.
pub open spec fn over_spec(v: DropContextView) -> (DropContextView, Seq<DropAction>, u32) {
    match v.current {
        Some(s) => {
            let s2 = Session { missing_drop_end: false, ..s };
            let actions = seq![DropAction::SendDropUpdate(s.id)];
            (after(v, v.next_session_id, Some(s2), actions), actions, platform_effect(
                s.last_operation,
            ))
        },
        None => (v, Seq::empty(), DROPEFFECT_NONE),
    }
}

/// Drag leaves the target: the session ends now, or, while a drag from this
/// process is still running, when that drag ends.
pub open spec fn leave_spec(v: DropContextView, local_dragging: bool) -> (
    DropContextView,
    Seq<DropAction>,
) {
    match v.current {
        Some(s) => {
            if local_dragging {
                let actions = seq![DropAction::SendDropLeave(s.id)];
                let s2 = Session { is_inside: false, missing_drop_end: true, ..s };
                (after(v, v.next_session_id, Some(s2), actions), actions)
            } else {
                let actions = seq![
                    DropAction::SendDropLeave(s.id),
                    DropAction::SendDropEnded(s.id),
                ];
                (after(v, v.next_session_id, None, actions), actions)
            }
        },
        None => (v, Seq::empty()),
    }
}

/// Drop on the target: the delegate performs the drop with the last
/// operation it chose, a deferred completion is begun where the provider
/// supports one, the target waits for the drop to complete, and the session
/// ends.
pub open spec fn drop_spec(v: DropContextView) -> (DropContextView, Seq<DropAction>, u32) {
    match v.current {
        Some(s) => {
            let actions = seq![
                DropAction::SendPerformDrop(s.id, s.last_operation),
                DropAction::BeginDeferredCompletion(s.id, platform_effect(s.last_operation)),
                DropAction::AwaitPerformDrop(s.id),
                DropAction::SendDropEnded(s.id),
            ];
            (after(v, v.next_session_id, None, actions), actions, platform_effect(
                s.last_operation,
            ))
        },
        None => (v, Seq::empty(), DROPEFFECT_NONE),
    }
}

/// A drag from this process ended: a session whose end was deferred ends now.
pub open spec fn local_drag_ended_spec(v: DropContextView) -> (DropContextView, Seq<DropAction>) {
    match v.current {
        Some(s) => if s.missing_drop_end {
            let actions = seq![DropAction::SendDropEnded(s.id)];
            (after(v, v.next_session_id, None, actions), actions)
        } else {
            (v, Seq::empty())
        },
        None => (v, Seq::empty()),
    }
}

/// The delegate answered an update of session `id` with `op`.
pub open spec fn record_spec(v: DropContextView, id: i64, op: DropOperation) -> DropContextView {
    match v.current {
        Some(s) => if s.id == id {
            DropContextView { current: Some(Session { last_operation: op, ..s }), ..v }
        } else {
            v
        },
        None => v,
    }
}

proof fn lemma_ended_ids_one(a: DropAction)
    ensures
        ended_ids(seq![a]) == (match a {
            DropAction::SendDropEnded(id) => seq![id],
            _ => Seq::<i64>::empty(),
        }),
{
    assert(seq![a].drop_last() =~= Seq::<DropAction>::empty());
    assert(ended_ids(Seq::<DropAction>::empty()) =~= Seq::<i64>::empty());
    match a {
        DropAction::SendDropEnded(id) => {
            assert(Seq::<i64>::empty().push(id) =~= seq![id]);
        },
        _ => {},
    }
}

proof fn lemma_ended_ids_append(a: Seq<DropAction>, b: Seq<DropAction>)
    ensures
        ended_ids(a + b) == ended_ids(a) + ended_ids(b),
    decreases b.len(),
{
    if b.len() == 0 {
        assert(a + b =~= a);
        assert(ended_ids(a) + ended_ids(b) =~= ended_ids(a));
    } else {
        assert((a + b).drop_last() =~= a + b.drop_last());
        lemma_ended_ids_append(a, b.drop_last());
        assert((a + b).last() == b.last());
        match b.last() {
            DropAction::SendDropEnded(id) => {
                assert(ended_ids(a) + ended_ids(b.drop_last()).push(id) =~= (ended_ids(a)
                    + ended_ids(b.drop_last())).push(id));
            },
            _ => {},
        }
    }
}

/// A provider callback or a delegate answer, as the state machine sees it.
pub enum DropEvent {
    Enter { has_data: bool, local_dragging: bool },
    Over,
    Leave { local_dragging: bool },
    Drop,
    LocalDragEnded,
    Answer { id: i64, op: DropOperation },
}

pub open spec fn step(v: DropContextView, e: DropEvent) -> DropContextView {
    match e {
        DropEvent::Enter { has_data, local_dragging } => enter_spec(v, has_data, local_dragging).0,
        DropEvent::Over => over_spec(v).0,
        DropEvent::Leave { local_dragging } => leave_spec(v, local_dragging).0,
        DropEvent::Drop => drop_spec(v).0,
        DropEvent::LocalDragEnded => local_drag_ended_spec(v).0,
        DropEvent::Answer { id, op } => record_spec(v, id, op),
    }
}

/// The state after a sequence of events.
pub open spec fn run(v: DropContextView, events: Seq<DropEvent>) -> DropContextView
    decreases events.len(),
{
    if events.len() == 0 {
        v
    } else {
        run(step(v, events[0]), events.drop_first())
    }
}

proof fn lemma_ended_ids_two(a: DropAction, b: DropAction)
    ensures
        ended_ids(seq![a, b]) == ended_ids(seq![a]) + ended_ids(seq![b]),
{
    assert(seq![a, b] =~= seq![a] + seq![b]);
    lemma_ended_ids_append(seq![a], seq![b]);
}

proof fn lemma_step_wf(v: DropContextView, e: DropEvent)
    requires
        wf(v),
        v.next_session_id < i64::MAX,
    ensures
        wf(step(v, e)),
        step(v, e).next_session_id <= v.next_session_id + 1,
{
    match e {
        DropEvent::Enter { has_data, local_dragging } => {
            let stale = v.current is Some && !local_dragging;
            let a1 = if stale {
                end_stale_actions(v.current.unwrap())
            } else {
                Seq::empty()
            };
            if stale {
                let s = v.current.unwrap();
                lemma_ended_ids_one(DropAction::SendDropEnded(s.id));
                if s.is_inside {
                    lemma_ended_ids_two(DropAction::SendDropLeave(s.id), DropAction::SendDropEnded(s.id));
                    lemma_ended_ids_one(DropAction::SendDropLeave(s.id));
                }
                assert(ended_ids(a1) =~= seq![s.id]);
            } else {
                assert(ended_ids(a1) =~= Seq::<i64>::empty());
            }
            let cur1 = if stale {
                None
            } else {
                v.current
            };
            if has_data {
                let a2 = match cur1 {
                    Some(_) => Seq::<DropAction>::empty(),
                    None => seq![DropAction::CreateSession(v.next_session_id as i64)],
                };
                lemma_ended_ids_one(DropAction::CreateSession(v.next_session_id as i64));
                assert(ended_ids(Seq::<DropAction>::empty()) =~= Seq::<i64>::empty());
                let id = match cur1 {
                    Some(s) => s.id,
                    None => v.next_session_id as i64,
                };
                lemma_ended_ids_one(DropAction::SendDropUpdate(id));
                lemma_ended_ids_append(a1 + a2, seq![DropAction::SendDropUpdate(id)]);
                lemma_ended_ids_append(a1, a2);
                let r = step(v, e);
                assert(r.ended =~= v.ended + ended_ids(a1));
            } else {
                let r = step(v, e);
                assert(r.ended =~= v.ended + ended_ids(a1));
            }
        },
        DropEvent::Over => {
            if let Some(s) = v.current {
                lemma_ended_ids_one(DropAction::SendDropUpdate(s.id));
                assert(step(v, e).ended =~= v.ended);
            }
        },
        DropEvent::Leave { local_dragging } => {
            if let Some(s) = v.current {
                lemma_ended_ids_one(DropAction::SendDropLeave(s.id));
                lemma_ended_ids_one(DropAction::SendDropEnded(s.id));
                lemma_ended_ids_two(DropAction::SendDropLeave(s.id), DropAction::SendDropEnded(s.id));
                if local_dragging {
                    assert(step(v, e).ended =~= v.ended);
                } else {
                    assert(step(v, e).ended =~= v.ended.push(s.id));
                }
            }
        },
        DropEvent::Drop => {
            if let Some(s) = v.current {
                let p = DropAction::SendPerformDrop(s.id, s.last_operation);
                let b = DropAction::BeginDeferredCompletion(s.id, platform_effect(s.last_operation));
                let w = DropAction::AwaitPerformDrop(s.id);
                let d = DropAction::SendDropEnded(s.id);
                assert(seq![p, b, w, d] =~= seq![p, b] + seq![w] + seq![d]);
                lemma_ended_ids_append(seq![p, b] + seq![w], seq![d]);
                lemma_ended_ids_append(seq![p, b], seq![w]);
                lemma_ended_ids_two(p, b);
                lemma_ended_ids_one(p);
                lemma_ended_ids_one(b);
                lemma_ended_ids_one(w);
                lemma_ended_ids_one(d);
                assert(step(v, e).ended =~= v.ended.push(s.id));
            }
        },
        DropEvent::LocalDragEnded => {
            if let Some(s) = v.current {
                lemma_ended_ids_one(DropAction::SendDropEnded(s.id));
                if s.missing_drop_end {
                    assert(step(v, e).ended =~= v.ended.push(s.id));
                }
            }
        },
        DropEvent::Answer { id, op } => {},
    }
}

proof fn lemma_wf_ended_exactly_once(v: DropContextView)
    requires
        wf(v),
    ensures
        ended_exactly_once(v),
{
    assert forall|i: int, j: int| 0 <= i < v.ended.len() && 0 <= j < v.ended.len() && i != j
        implies v.ended[i] != v.ended[j] by {}
    assert forall|id: i64| v.ended.contains(id) <==> (0 <= id < v.next_session_id && !(
    v.current is Some && v.current.unwrap().id == id)) by {
        if 0 <= id < v.next_session_id && !(v.current is Some && v.current.unwrap().id == id) {
            assert(v.ended[id as int] == id);
        }
    }
}

/// Whatever sequence of enter, over, leave, drop, end-of-local-drag and
/// delegate answers the target goes through, every session created has been
/// ended exactly once, but the current one, which has not been ended yet.
pub proof fn lemma_session_ended_exactly_once(v: DropContextView, events: Seq<DropEvent>)
    requires
        wf(v),
        v.next_session_id + events.len() <= i64::MAX,
    ensures
        wf(run(v, events)),
        ended_exactly_once(run(v, events)),
    decreases events.len(),
{
    if events.len() == 0 {
        lemma_wf_ended_exactly_once(v);
    } else {
        lemma_step_wf(v, events[0]);
        lemma_session_ended_exactly_once(step(v, events[0]), events.drop_first());
    }
}

impl PlatformDropContext {
    pub fn new() -> (r: Self)
        ensures
            r@ == (DropContextView { next_session_id: 0, current: None, ended: Seq::empty() }),
            wf(r@),
    {
        PlatformDropContext { next_session_id: 0, current_session: None, ended: Ghost(Seq::empty()) }
    }

    /// The current session, if any.
    pub fn current_session(&self) -> (r: Option<Session>)
        ensures
            r == self@.current,
    {
        self.current_session
    }

    /// The effect of the last operation the delegate chose for the current
    /// session; no effect without a session.
    pub fn current_effect(&self) -> (r: u32)
        ensures
            r == match self@.current {
                Some(s) => platform_effect(s.last_operation),
                None => DROPEFFECT_NONE,
            },
    {
        match self.current_session {
            Some(s) => s.last_operation.to_platform(),
            None => DROPEFFECT_NONE,
        }
    }

    /// Whether a new session can still be numbered.
    pub fn can_create_session(&self) -> (r: bool)
        ensures
            r == (self@.next_session_id < i64::MAX),
    {
        self.next_session_id < i64::MAX
    }

    fn end_current(&mut self, actions: &mut Vec<DropAction>)
        requires
            old(self).current_session is Some,
        ensures
            final(self).current_session is None,
            final(self).next_session_id == old(self).next_session_id,
            final(actions)@ == old(actions)@.push(
                DropAction::SendDropEnded(old(self).current_session.unwrap().id),
            ),
            final(self).ended@ == old(self).ended@.push(old(self).current_session.unwrap().id),
    {
        let s = self.current_session.unwrap();
        actions.push(DropAction::SendDropEnded(s.id));
        self.ended = Ghost(self.ended@.push(s.id));
        self.current_session = None;
    }

    pub fn on_drag_enter(&mut self, has_data: bool, local_dragging: bool) -> (r: Reaction)
        requires
            old(self)@.next_session_id < i64::MAX,
        ensures
            (final(self)@, r.actions@, r.effect) == enter_spec(old(self)@, has_data, local_dragging),
    {
        let ghost v = self@;
        let mut actions: Vec<DropAction> = Vec::new();
        let stale = self.current_session.is_some() && !local_dragging;
        if stale {
            let s = self.current_session.unwrap();
            if s.is_inside {
                actions.push(DropAction::SendDropLeave(s.id));
            }
            self.end_current(&mut actions);
            assert(actions@ =~= end_stale_actions(s));
            proof {
                if s.is_inside {
                    assert(actions@ =~= seq![DropAction::SendDropLeave(s.id)] + seq![
                        DropAction::SendDropEnded(s.id),
                    ]);
                    lemma_ended_ids_append(
                        seq![DropAction::SendDropLeave(s.id)],
                        seq![DropAction::SendDropEnded(s.id)],
                    );
                    lemma_ended_ids_one(DropAction::SendDropLeave(s.id));
                }
                lemma_ended_ids_one(DropAction::SendDropEnded(s.id));
                assert(self.ended@ =~= v.ended + ended_ids(actions@));
            }
        } else {
            assert(self.ended@ =~= v.ended + ended_ids(actions@));
        }
        let ghost a1 = actions@;
        if !has_data {
            return Reaction { actions, effect: DROPEFFECT_NONE };
        }
        if self.current_session.is_none() {
            let id = self.next_session_id;
            actions.push(DropAction::CreateSession(id));
            self.current_session = Some(
                Session {
                    id,
                    is_inside: true,
                    missing_drop_end: false,
                    last_operation: DropOperation::NoEffect,
                },
            );
            self.next_session_id = id + 1;
        }
        let s = self.current_session.unwrap();
        let s2 = Session { is_inside: true, missing_drop_end: false, ..s };
        self.current_session = Some(s2);
        actions.push(DropAction::SendDropUpdate(s.id));
        proof {
            let a2 = actions@.subrange(a1.len() as int, actions@.len() as int - 1);
            assert(actions@ =~= a1 + a2 + seq![DropAction::SendDropUpdate(s.id)]);
            lemma_ended_ids_append(a1 + a2, seq![DropAction::SendDropUpdate(s.id)]);
            lemma_ended_ids_one(DropAction::SendDropUpdate(s.id));
            lemma_ended_ids_append(a1, a2);
            if a2.len() == 1 {
                assert(a2 =~= seq![a2[0]]);
                lemma_ended_ids_one(a2[0]);
            } else {
                assert(a2 =~= Seq::<DropAction>::empty());
            }
            assert(self.ended@ =~= v.ended + ended_ids(actions@));
        }
        Reaction { actions, effect: s2.last_operation.to_platform() }
    }

    pub fn on_drag_over(&mut self) -> (r: Reaction)
        ensures
            (final(self)@, r.actions@, r.effect) == over_spec(old(self)@),
    {
        let mut actions: Vec<DropAction> = Vec::new();
        match self.current_session {
            Some(s) => {
                self.current_session = Some(Session { missing_drop_end: false, ..s });
                actions.push(DropAction::SendDropUpdate(s.id));
                proof {
                    lemma_ended_ids_one(DropAction::SendDropUpdate(s.id));
                    assert(actions@ =~= seq![DropAction::SendDropUpdate(s.id)]);
                    assert(self.ended@ =~= self.ended@ + ended_ids(actions@));
                }
                Reaction { actions, effect: s.last_operation.to_platform() }
            },
            None => Reaction { actions, effect: DROPEFFECT_NONE },
        }
    }

    pub fn on_drag_leave(&mut self, local_dragging: bool) -> (r: Vec<DropAction>)
        ensures
            (final(self)@, r@) == leave_spec(old(self)@, local_dragging),
    {
        let ghost v = self@;
        let mut actions: Vec<DropAction> = Vec::new();
        match self.current_session {
            Some(s) => {
                actions.push(DropAction::SendDropLeave(s.id));
                if local_dragging {
                    self.current_session = Some(
                        Session { is_inside: false, missing_drop_end: true, ..s },
                    );
                    proof {
                        lemma_ended_ids_one(DropAction::SendDropLeave(s.id));
                        assert(actions@ =~= seq![DropAction::SendDropLeave(s.id)]);
                        assert(self.ended@ =~= v.ended + ended_ids(actions@));
                    }
                } else {
                    self.end_current(&mut actions);
                    proof {
                        let l = seq![DropAction::SendDropLeave(s.id)];
                        let e = seq![DropAction::SendDropEnded(s.id)];
                        assert(actions@ =~= l + e);
                        assert(actions@ =~= seq![
                            DropAction::SendDropLeave(s.id),
                            DropAction::SendDropEnded(s.id),
                        ]);
                        lemma_ended_ids_append(l, e);
                        lemma_ended_ids_one(DropAction::SendDropLeave(s.id));
                        lemma_ended_ids_one(DropAction::SendDropEnded(s.id));
                        assert(self.ended@ =~= v.ended + ended_ids(actions@));
                    }
                }
                actions
            },
            None => actions,
        }
    }

    pub fn on_drop(&mut self) -> (r: Reaction)
        ensures
            (final(self)@, r.actions@, r.effect) == drop_spec(old(self)@),
    {
        let ghost v = self@;
        let mut actions: Vec<DropAction> = Vec::new();
        match self.current_session {
            Some(s) => {
                let effect = s.last_operation.to_platform();
                actions.push(DropAction::SendPerformDrop(s.id, s.last_operation));
                actions.push(DropAction::BeginDeferredCompletion(s.id, effect));
                actions.push(DropAction::AwaitPerformDrop(s.id));
                self.end_current(&mut actions);
                proof {
                    let p = DropAction::SendPerformDrop(s.id, s.last_operation);
                    let b = DropAction::BeginDeferredCompletion(s.id, effect);
                    let w = DropAction::AwaitPerformDrop(s.id);
                    let e = DropAction::SendDropEnded(s.id);
                    assert(actions@ =~= seq![p, b] + seq![w] + seq![e]);
                    assert(actions@ =~= seq![p, b, w, e]);
                    lemma_ended_ids_append(seq![p, b] + seq![w], seq![e]);
                    lemma_ended_ids_append(seq![p, b], seq![w]);
                    lemma_ended_ids_two(p, b);
                    lemma_ended_ids_one(p);
                    lemma_ended_ids_one(b);
                    lemma_ended_ids_one(w);
                    lemma_ended_ids_one(e);
                    assert(self.ended@ =~= v.ended + ended_ids(actions@));
                }
                Reaction { actions, effect }
            },
            None => Reaction { actions, effect: DROPEFFECT_NONE },
        }
    }

    /// A drag from this process ended.
    pub fn local_dragging_did_end(&mut self) -> (r: Vec<DropAction>)
        ensures
            (final(self)@, r@) == local_drag_ended_spec(old(self)@),
    {
        let ghost v = self@;
        let mut actions: Vec<DropAction> = Vec::new();
        match self.current_session {
            Some(s) => {
                if s.missing_drop_end {
                    self.end_current(&mut actions);
                    proof {
                        lemma_ended_ids_one(DropAction::SendDropEnded(s.id));
                        assert(actions@ =~= seq![DropAction::SendDropEnded(s.id)]);
                        assert(self.ended@ =~= v.ended + ended_ids(actions@));
                    }
                }
                actions
            },
            None => actions,
        }
    }

    /// Records the operation the delegate chose for session `id`.
    pub fn record_operation(&mut self, id: i64, op: DropOperation)
        ensures
            final(self)@ == record_spec(old(self)@, id, op),
    {
        match self.current_session {
            Some(s) => {
                if s.id == id {
                    self.current_session = Some(Session { last_operation: op, ..s });
                }
            },
            None => {},
        }
    }
}


/// One item of a drop event.
pub struct DropItem {
    pub item_id: i64,
    /// The item's formats, as the reader lists them.
    pub formats: Vec<String>,
    /// Whether the dragging side attached local data to the item.
    pub has_local_data: bool,
}

/// Items of a drop event: as many as the longer of the reader's items and the
/// local data of a drag from this process.
pub fn drop_items(reader: &PlatformDataReader, local_data_count: usize) -> (r: Vec<DropItem>)
    requires
        loaded(reader@),
    ensures
        r@.len() == (if local_data_count >= item_count_spec(reader@) {
            local_data_count as nat
        } else {
            item_count_spec(reader@)
        }),
        forall|i: int|
            0 <= i < r@.len() ==> {
                &&& (#[trigger] r@[i]).item_id == i as i64
                &&& r@[i].has_local_data == (i < local_data_count)
                &&& string_views(r@[i].formats@) == if i < item_count_spec(reader@) {
                    formats_for_item_spec(reader@, i as i64)
                } else {
                    Seq::empty()
                }
            },
{
    let count = reader.item_count();
    let n = if local_data_count >= count {
        local_data_count
    } else {
        count
    };
    let mut r: Vec<DropItem> = Vec::new();
    let mut i: usize = 0;
    while i < n
        invariant
            loaded(reader@),
            count == item_count_spec(reader@),
            n == (if local_data_count >= count {
                local_data_count
            } else {
                count
            }),
            i <= n,
            r@.len() == i,
            forall|j: int|
                0 <= j < i ==> {
                    &&& (#[trigger] r@[j]).item_id == j as i64
                    &&& r@[j].has_local_data == (j < local_data_count)
                    &&& string_views(r@[j].formats@) == if j < count {
                        formats_for_item_spec(reader@, j as i64)
                    } else {
                        Seq::empty()
                    }
                },
        decreases n - i,
    {
        let formats = if i < count {
            reader.get_formats_for_item_sync(i as i64)
        } else {
            let v: Vec<String> = Vec::new();
            assert(string_views(v@) =~= Seq::<Seq<char>>::empty());
            v
        };
        r.push(DropItem { item_id: i as i64, formats, has_local_data: i < local_data_count });
        i = i + 1;
    }
    r
}


/// The provider's deferred-completion handle and the effect to end it with,
/// shared by a session and the reader made for it: whichever finishes first
/// takes it, so the completion is signalled once.
pub struct CompletionSlot<T> {
    pending: Option<T>,
}

impl<T> CompletionSlot<T> {
    pub closed spec fn spec_pending(&self) -> Option<T> {
        self.pending
    }

    pub fn new() -> (r: Self)
        ensures
            r.spec_pending() is None,
    {
        CompletionSlot { pending: None }
    }

    /// Stores the handle to complete later.
    pub fn record(&mut self, value: T)
        ensures
            final(self).spec_pending() == Some(value),
    {
        self.pending = Some(value);
    }

    /// Takes the handle, if still there; a second take gets nothing.
    pub fn take(&mut self) -> (r: Option<T>)
        ensures
            r == old(self).spec_pending(),
            final(self).spec_pending() is None,
    {
        self.pending.take()
    }
}


/// Begins the provider's deferred completion of a drop: when the provider
/// offers the capability and reports that it completes asynchronously, its
/// handle is kept with `effect`, to be ended once by whichever of the drop or
/// the reader finishes last; the result says whether the operation must be
/// started and the reader made asynchronous.
pub fn begin_deferred_completion<T>(
    slot: &mut CompletionSlot<(T, u32)>,
    capability: Option<T>,
    async_mode: bool,
    effect: u32,
) -> (r: bool)
    ensures
        r == (capability is Some && async_mode),
        r ==> final(slot).spec_pending() == Some((capability.unwrap(), effect)),
        !r ==> final(slot).spec_pending() == old(slot).spec_pending(),
{
    match capability {
        Some(c) => {
            if async_mode {
                slot.record((c, effect));
                true
            } else {
                false
            }
        },
        None => false,
    }
}

} // verus!
