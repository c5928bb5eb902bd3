use std::collections::HashMap;

use super_native_extensions::data_reader::{ClipboardFormat, PlatformDataReader};
use super_native_extensions::drop_context::{
    begin_deferred_completion, drop_items, CompletionSlot, DropAction, DropOperation, PlatformDropContext, DROPEFFECT_COPY, DROPEFFECT_NONE,
};

fn ended(actions: &[DropAction]) -> Vec<i64> {
    actions
        .iter()
        .filter_map(|a| match a {
            DropAction::SendDropEnded(id) => Some(*id),
            _ => None,
        })
        .collect()
}

#[test]
fn scenario_drop_waits_for_completion_then_ends_once() {
    let mut ctx = PlatformDropContext::new();
    let enter = ctx.on_drag_enter(true, false);
    assert_eq!(enter.actions, vec![DropAction::CreateSession(0), DropAction::SendDropUpdate(0)]);
    assert_eq!(enter.effect, DROPEFFECT_NONE);
    ctx.record_operation(0, DropOperation::Copy);
    let over = ctx.on_drag_over();
    assert_eq!(over.actions, vec![DropAction::SendDropUpdate(0)]);
    assert_eq!(over.effect, DROPEFFECT_COPY);
    let drop = ctx.on_drop();
    assert_eq!(
        drop.actions,
        vec![
            DropAction::SendPerformDrop(0, DropOperation::Copy),
            DropAction::BeginDeferredCompletion(0, DROPEFFECT_COPY),
            DropAction::AwaitPerformDrop(0),
            DropAction::SendDropEnded(0),
        ]
    );
    assert_eq!(drop.effect, DROPEFFECT_COPY);
    assert!(ctx.current_session().is_none());
    assert_eq!(ctx.on_drop().actions, vec![]);
    assert_eq!(ctx.local_dragging_did_end(), vec![]);
}

#[test]
fn scenario_leave_during_local_drag_defers_end() {
    let mut ctx = PlatformDropContext::new();
    ctx.on_drag_enter(true, true);
    let leave = ctx.on_drag_leave(true);
    assert_eq!(leave, vec![DropAction::SendDropLeave(0)]);
    let s = ctx.current_session().unwrap();
    assert!(!s.is_inside);
    assert!(s.missing_drop_end);
    assert_eq!(ctx.local_dragging_did_end(), vec![DropAction::SendDropEnded(0)]);
    assert_eq!(ctx.local_dragging_did_end(), vec![]);
    assert!(ctx.current_session().is_none());
}

#[test]
fn reentering_during_local_drag_keeps_the_session() {
    let mut ctx = PlatformDropContext::new();
    ctx.on_drag_enter(true, true);
    ctx.on_drag_leave(true);
    let again = ctx.on_drag_enter(true, true);
    assert_eq!(again.actions, vec![DropAction::SendDropUpdate(0)]);
    let s = ctx.current_session().unwrap();
    assert!(s.is_inside && !s.missing_drop_end);
    assert_eq!(ctx.local_dragging_did_end(), vec![]);
}

#[test]
fn stale_session_is_ended_before_a_new_one() {
    let mut ctx = PlatformDropContext::new();
    ctx.on_drag_enter(true, false);
    let again = ctx.on_drag_enter(true, false);
    assert_eq!(
        again.actions,
        vec![
            DropAction::SendDropLeave(0),
            DropAction::SendDropEnded(0),
            DropAction::CreateSession(1),
            DropAction::SendDropUpdate(1),
        ]
    );
    let none = ctx.on_drag_enter(false, false);
    assert_eq!(none.actions, vec![DropAction::SendDropLeave(1), DropAction::SendDropEnded(1)]);
    assert_eq!(none.effect, DROPEFFECT_NONE);
    assert_eq!(ctx.on_drag_over().effect, DROPEFFECT_NONE);
    assert_eq!(ctx.on_drag_leave(false), vec![]);
}

#[test]
fn ended_fires_exactly_once_per_session_over_random_sequences() {
    let mut seed: u64 = 0x2545_f491_4f6c_dd1d;
    for _ in 0..200 {
        let mut ctx = PlatformDropContext::new();
        let mut created: Vec<i64> = Vec::new();
        let mut ends: HashMap<i64, usize> = HashMap::new();
        for _ in 0..40 {
            seed = seed.wrapping_mul(6364136223846793005).wrapping_add(1442695040888963407);
            let pick = (seed >> 33) % 7;
            let flag = (seed >> 20) & 1 == 1;
            let actions = match pick {
                0 => ctx.on_drag_enter(flag, (seed >> 21) & 1 == 1).actions,
                1 => ctx.on_drag_over().actions,
                2 => ctx.on_drag_leave(flag),
                3 => ctx.on_drop().actions,
                4 => ctx.local_dragging_did_end(),
                5 => {
                    if let Some(s) = ctx.current_session() {
                        ctx.record_operation(s.id, DropOperation::Move);
                    }
                    Vec::new()
                },
                _ => ctx.on_drag_over().actions,
            };
            for a in &actions {
                if let DropAction::CreateSession(id) = a {
                    created.push(*id);
                }
            }
            for id in ended(&actions) {
                *ends.entry(id).or_insert(0) += 1;
            }
        }
        let current = ctx.current_session().map(|s| s.id);
        for id in &created {
            let n = ends.get(id).copied().unwrap_or(0);
            if Some(*id) == current {
                assert_eq!(n, 0);
            } else {
                assert_eq!(n, 1, "session {id}");
            }
        }
        assert!(ends.keys().all(|id| created.contains(id)));
    }
}

#[test]
fn operations_and_masks() {
    assert_eq!(DropOperation::Copy.to_platform(), 1);
    assert_eq!(DropOperation::Move.to_platform(), 2);
    assert_eq!(DropOperation::Link.to_platform(), 4);
    assert_eq!(DropOperation::Forbidden.to_platform(), 0);
    assert_eq!(
        DropOperation::from_platform_mask(7),
        vec![DropOperation::Copy, DropOperation::Move, DropOperation::Link]
    );
    assert_eq!(DropOperation::from_platform_mask(4), vec![DropOperation::Link]);
    assert_eq!(DropOperation::from_platform_mask(0), vec![]);
}

#[test]
fn answers_for_old_sessions_are_ignored() {
    let mut ctx = PlatformDropContext::new();
    ctx.on_drag_enter(true, false);
    ctx.on_drag_enter(true, false);
    ctx.record_operation(0, DropOperation::Copy);
    assert_eq!(ctx.current_session().unwrap().last_operation, DropOperation::NoEffect);
    assert!(ctx.can_create_session());
}

#[test]
fn drop_event_items() {
    let mut r = PlatformDataReader::new(0xC100);
    r.set_formats_raw(vec![ClipboardFormat { id: 13, name: "NativeShell_CF_13".to_string() }]);
    r.set_file_descriptors(None);
    r.set_hdrop(None);
    let items = drop_items(&r, 3);
    assert_eq!(items.len(), 3);
    assert_eq!(items[0].item_id, 0);
    assert_eq!(items[0].formats, vec!["NativeShell_CF_13".to_string()]);
    assert!(items[2].has_local_data);
    assert!(items[1].formats.is_empty());
    let only_reader = drop_items(&r, 0);
    assert_eq!(only_reader.len(), 1);
    assert!(!only_reader[0].has_local_data);
}

#[test]
fn deferred_completion_is_kept_only_when_supported() {
    let mut slot: CompletionSlot<(&str, u32)> = CompletionSlot::new();
    assert!(!begin_deferred_completion(&mut slot, Some("cap"), false, 1));
    assert!(!begin_deferred_completion(&mut slot, None, true, 1));
    assert_eq!(slot.take(), None);
    assert!(begin_deferred_completion(&mut slot, Some("cap"), true, 2));
    assert_eq!(slot.take(), Some(("cap", 2)));
    assert_eq!(slot.take(), None);
}

#[test]
fn completion_is_taken_once() {
    let mut slot: CompletionSlot<(u8, u32)> = CompletionSlot::new();
    assert_eq!(slot.take(), None);
    slot.record((7, 1));
    assert_eq!(slot.take(), Some((7, 1)));
    assert_eq!(slot.take(), None);
}

#[test]
fn current_effect_follows_the_delegate() {
    let mut ctx = PlatformDropContext::new();
    assert_eq!(ctx.current_effect(), DROPEFFECT_NONE);
    ctx.on_drag_enter(true, false);
    ctx.record_operation(0, DropOperation::Link);
    assert_eq!(ctx.current_effect(), 4);
}
