use fairplay::{
    Action, BoxBlurOptions, EditSession, GrayscaleOptions, HistoryError, Modifier,
    ModifierAdded, ModifierOptionsApplied, ModifierRemoved, ModifierSelected, NegativeOptions,
    PixelBuffer,
};

fn session() -> EditSession {
    EditSession::new(PixelBuffer::from_raw(1, 1, vec![1, 2, 3, 4]).unwrap())
}

fn added(m: Modifier) -> Action {
    Action::ModifierAdded(ModifierAdded::new(m))
}

const A: Modifier = Modifier::Laplace;
const B: Modifier = Modifier::Sharpening;
const C: Modifier = Modifier::BoxBlur(BoxBlurOptions { size: 5 });

#[test]
fn add_selects_new_modifier() {
    let mut s = session();
    assert_eq!(s.apply(added(A)), Ok(Some(1)));
    assert_eq!(s.state.modifiers, vec![A]);
    assert_eq!(s.state.selection, Some((0, A)));
    assert!(s.busy);
}

#[test]
fn undo_redo_restores_state() {
    let mut s = session();
    s.apply(added(A)).unwrap();
    s.apply(added(B)).unwrap();
    let mods = s.state.modifiers.clone();
    let sel = s.state.selection;
    assert!(s.undo().is_some());
    assert_eq!(s.state.modifiers, vec![A]);
    assert_eq!(s.state.selection, Some((0, A)));
    assert!(s.redo().is_some());
    assert_eq!(s.state.modifiers, mods);
    assert_eq!(s.state.selection, sel);
}

#[test]
fn apply_then_undo_returns_to_start() {
    let mut s = session();
    s.apply(added(A)).unwrap();
    s.apply(Action::ModifierSelected(ModifierSelected::new(0, A))).unwrap();
    let before = s.state.clone();
    s.apply(Action::ModifierRemoved(ModifierRemoved::new(0))).unwrap();
    assert!(s.state.modifiers.is_empty());
    assert_eq!(s.state.selection, None);
    s.undo();
    assert_eq!(s.state, before);
}

#[test]
fn new_action_discards_redo_branch() {
    let mut s = session();
    s.apply(added(A)).unwrap();
    s.apply(added(B)).unwrap();
    s.undo();
    s.apply(added(C)).unwrap();
    assert_eq!(s.history.len(), 2);
    assert_eq!(s.history.cursor(), 2);
    assert_eq!(s.state.modifiers, vec![A, C]);
    assert_eq!(s.redo(), None);
    assert_eq!(s.state.modifiers, vec![A, C]);
    assert_eq!(s.history.cursor(), 2);
}

#[test]
fn undo_and_redo_at_the_ends_do_nothing() {
    let mut s = session();
    assert_eq!(s.undo(), None);
    assert_eq!(s.redo(), None);
    assert!(!s.busy);
    assert!(s.state.modifiers.is_empty());
}

#[test]
fn options_applied_and_undone() {
    let mut s = session();
    let neg = Modifier::Negative(NegativeOptions { grayscale: false });
    let neg_gray = Modifier::Negative(NegativeOptions { grayscale: true });
    s.apply(added(neg)).unwrap();
    s.change_options(neg_gray).unwrap();
    assert_eq!(s.state.selection, Some((0, neg_gray)));
    assert_eq!(s.state.modifiers, vec![neg]);
    s.apply(Action::ModifierOptionsApplied(ModifierOptionsApplied::new())).unwrap();
    assert_eq!(s.state.modifiers, vec![neg_gray]);
    s.undo();
    assert_eq!(s.state.modifiers, vec![neg]);
    assert_eq!(s.state.selection, Some((0, neg_gray)));
    s.redo();
    assert_eq!(s.state.modifiers, vec![neg_gray]);
}

#[test]
fn selecting_twice_toggles_selection() {
    let mut s = session();
    s.apply(added(A)).unwrap();
    s.apply(added(B)).unwrap();
    let g = s.generation;
    assert_eq!(s.apply(Action::ModifierSelected(ModifierSelected::new(0, A))), Ok(None));
    assert_eq!(s.generation, g);
    assert_eq!(s.state.selection, Some((0, A)));
    s.apply(Action::ModifierSelected(ModifierSelected::new(0, A))).unwrap();
    assert_eq!(s.state.selection, None);
    s.undo();
    assert_eq!(s.state.selection, Some((0, A)));
}

#[test]
fn invalid_actions_are_errors() {
    let mut s = session();
    assert_eq!(
        s.apply(Action::ModifierRemoved(ModifierRemoved::new(0))),
        Err(HistoryError::IndexOutOfRange)
    );
    assert_eq!(
        s.apply(Action::ModifierOptionsApplied(ModifierOptionsApplied::new())),
        Err(HistoryError::NoSelection)
    );
    assert_eq!(
        s.apply(Action::ModifierSelected(ModifierSelected::new(3, A))),
        Err(HistoryError::IndexOutOfRange)
    );
    assert_eq!(s.change_options(A), Err(HistoryError::NoSelection));
    assert_eq!(s.history.len(), 0);
}

#[test]
fn stale_output_is_dropped() {
    let mut s = session();
    let first = s.apply(added(A)).unwrap().unwrap();
    let second = s.apply(added(Modifier::Grayscale(GrayscaleOptions::default()))).unwrap().unwrap();
    assert_ne!(first, second);
    let stale = PixelBuffer::from_raw(1, 1, vec![9, 9, 9, 9]).unwrap();
    assert!(!s.deliver(first, stale));
    assert!(s.busy);
    let fresh = PixelBuffer::from_raw(1, 1, vec![2, 2, 2, 4]).unwrap();
    assert!(s.deliver(second, fresh.clone()));
    assert!(!s.busy);
    assert_eq!(s.output, fresh);
}
