use montui::select::Selection;

#[test]
fn next_wraps_from_last_to_first() {
    let mut s = Selection::Focused(4);
    s.next(5);
    assert_eq!(s, Selection::Focused(0));
}

#[test]
fn previous_wraps_from_first_to_last() {
    let mut s = Selection::Focused(0);
    s.previous(5);
    assert_eq!(s, Selection::Focused(4));
}

#[test]
fn next_steps_forward() {
    let mut s = Selection::Focused(1);
    s.next(5);
    assert_eq!(s, Selection::Focused(2));
}

#[test]
fn previous_steps_backward() {
    let mut s = Selection::Focused(3);
    s.previous(5);
    assert_eq!(s, Selection::Focused(2));
}

#[test]
fn navigation_on_empty_list_goes_empty() {
    let mut s = Selection::Focused(0);
    s.next(0);
    assert_eq!(s, Selection::Empty);
    let mut t = Selection::Focused(2);
    t.previous(0);
    assert_eq!(t, Selection::Empty);
}

#[test]
fn refresh_clamps_to_new_last_row() {
    let mut s = Selection::Focused(3);
    s.on_refresh(2);
    assert_eq!(s, Selection::Focused(1));
}

#[test]
fn refresh_to_empty_list_forces_empty() {
    let mut s = Selection::Focused(3);
    s.on_refresh(0);
    assert_eq!(s, Selection::Empty);
}

#[test]
fn refresh_keeps_in_range_focus() {
    let mut s = Selection::Focused(1);
    s.on_refresh(5);
    assert_eq!(s, Selection::Focused(1));
}

#[test]
fn refresh_focuses_first_row_when_empty_gains_rows() {
    let mut s = Selection::Empty;
    s.on_refresh(3);
    assert_eq!(s, Selection::Focused(0));
}

#[test]
fn switch_view_resets_focus() {
    let mut s = Selection::Focused(4);
    s.switch_view(2);
    assert_eq!(s, Selection::Focused(0));
    s.switch_view(0);
    assert_eq!(s, Selection::Empty);
}

#[test]
fn initial_selection_focuses_first_row() {
    let s = Selection::new();
    assert_eq!(s, Selection::Focused(0));
    assert_eq!(s.selected(), Some(0));
    assert_eq!(Selection::Empty.selected(), None);
}
