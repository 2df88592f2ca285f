use echocad::undo::{UndoManager, MAX_UNDO};
use echocad::FeatureId;

#[test]
fn fresh_history_has_nothing_to_undo() {
    let mut m = UndoManager::new();
    assert!(!m.can_undo());
    assert!(!m.can_redo());
    assert!(m.undo(Some(vec![1]), None).is_none());
    assert!(m.redo(Some(vec![1]), None).is_none());
    // A refused undo does not record the current state.
    assert!(!m.can_redo());
}

#[test]
fn undo_returns_last_snapshot_and_redo_restores() {
    let mut m = UndoManager::new();
    m.push_snapshot(vec![1], None);
    m.push_snapshot(vec![2], Some(FeatureId(5)));
    assert!(m.can_undo());
    let (data, active) = m.undo(Some(vec![3]), Some(FeatureId(6))).expect("one to undo");
    assert_eq!(data, vec![2]);
    assert_eq!(active, Some(FeatureId(5)));
    assert!(m.can_redo());
    let (data, active) = m.redo(Some(vec![2]), Some(FeatureId(5))).expect("one to redo");
    assert_eq!(data, vec![3]);
    assert_eq!(active, Some(FeatureId(6)));
    assert_eq!(m.undo_len(), 2);
}

#[test]
fn new_snapshot_clears_redo() {
    let mut m = UndoManager::new();
    m.push_snapshot(vec![1], None);
    m.undo(Some(vec![2]), None).expect("one to undo");
    assert!(m.can_redo());
    m.push_snapshot(vec![9], None);
    assert!(!m.can_redo());
}

#[test]
fn history_is_bounded() {
    let mut m = UndoManager::new();
    for i in 0..(MAX_UNDO + 10) {
        m.push_snapshot(vec![i as u8], None);
    }
    assert_eq!(m.undo_len(), MAX_UNDO);
    // The oldest snapshots were dropped, the newest is on top.
    let (data, _) = m.undo(None, None).unwrap();
    assert_eq!(data, vec![(MAX_UNDO + 9) as u8]);
    m.clear();
    assert!(!m.can_undo());
    assert!(!m.can_redo());
}

#[test]
fn discard_snapshot_drops_only_the_expected_push() {
    let mut m = UndoManager::new();
    m.push_snapshot(vec![1], None);
    let before = m.undo_len();
    m.push_snapshot(vec![2], None);
    assert!(m.discard_snapshot(before));
    assert_eq!(m.undo_len(), 1);
    // Nothing was pushed since: nothing to discard.
    assert!(!m.discard_snapshot(m.undo_len()));
    assert_eq!(m.undo_len(), 1);
}
