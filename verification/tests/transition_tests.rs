use komorebi::container::Container;
use komorebi::error::ErrorKind;
use komorebi::error::WorkspaceError;
use komorebi::layout::CustomLayout;
use komorebi::layout::DefaultLayout;
use komorebi::layout::Layout;
use komorebi::rect::Rect;
use komorebi::window::PlatformCommand;
use komorebi::window::Window;
use komorebi::workspace::Workspace;

fn container_of(hwnds: &[isize]) -> Container {
    let mut container = Container::new();
    for hwnd in hwnds {
        container.add_window(Window { hwnd: *hwnd });
    }
    container
}

fn workspace_of(groups: &[&[isize]]) -> Workspace {
    let mut ws = Workspace::default();
    for group in groups {
        ws.add_container(container_of(group));
    }
    ws
}

fn tiled(ws: &Workspace) -> Vec<Vec<isize>> {
    ws.containers().iter().map(|c| c.windows().iter().map(|w| w.hwnd).collect()).collect()
}

fn floating(ws: &Workspace) -> Vec<isize> {
    ws.floating_windows().iter().map(|w| w.hwnd).collect()
}

fn monocle(ws: &Workspace) -> Option<Vec<isize>> {
    ws.monocle_container().as_ref().map(|c| c.windows().iter().map(|w| w.hwnd).collect())
}

fn rect(n: i32) -> Rect {
    Rect { left: n, top: n, right: n, bottom: n }
}

#[test]
fn add_container_appends_focuses_and_adds_an_empty_size_override() {
    let mut ws = Workspace::default();
    ws.add_container(container_of(&[1]));
    ws.add_container(container_of(&[2, 3]));
    assert_eq!(tiled(&ws), vec![vec![1], vec![2, 3]]);
    assert_eq!(ws.focused_container_idx(), 1);
    assert_eq!(ws.resize_dimensions(), &vec![None, None]);
}

#[test]
fn insert_container_at_idx_keeps_the_cursor_index() {
    let mut ws = workspace_of(&[&[1], &[2]]);
    ws.set_resize_dimensions(vec![Some(rect(1)), Some(rect(2))]);
    ws.insert_container_at_idx(0, container_of(&[9]));
    assert_eq!(tiled(&ws), vec![vec![9], vec![1], vec![2]]);
    assert_eq!(ws.focused_container_idx(), 1);
    assert_eq!(ws.resize_dimensions(), &vec![None, Some(rect(1)), Some(rect(2))]);
}

#[test]
fn focus_container_ignores_an_index_past_the_end() {
    let mut ws = workspace_of(&[&[1], &[2], &[3]]);
    ws.focus_container(0);
    assert_eq!(ws.focused_container_idx(), 0);
    ws.focus_container(3);
    assert_eq!(ws.focused_container_idx(), 0);
}

#[test]
fn swap_containers_exchanges_and_focuses_the_second() {
    let mut ws = workspace_of(&[&[1], &[2], &[3]]);
    ws.swap_containers(2, 0);
    assert_eq!(tiled(&ws), vec![vec![3], vec![2], vec![1]]);
    assert_eq!(ws.focused_container_idx(), 0);
}

#[test]
fn remove_container_by_idx_removes_container_and_size_override() {
    let mut ws = workspace_of(&[&[1], &[2], &[3]]);
    ws.set_resize_dimensions(vec![Some(rect(1)), Some(rect(2)), Some(rect(3))]);
    let removed = ws.remove_container_by_idx(1);
    assert_eq!(removed.map(|c| c.windows().iter().copied().collect::<Vec<_>>()), Some(vec![Window { hwnd: 2 }]));
    assert_eq!(tiled(&ws), vec![vec![1], vec![3]]);
    assert_eq!(ws.resize_dimensions(), &vec![Some(rect(1)), Some(rect(3))]);
    assert_eq!(ws.focused_container_idx(), 1);
    assert!(ws.remove_container_by_idx(2).is_none());
    assert_eq!(tiled(&ws), vec![vec![1], vec![3]]);
}

#[test]
fn remove_container_after_the_focused_one_does_not_move_focus() {
    let mut ws = workspace_of(&[&[1], &[2], &[3]]);
    ws.focus_container(0);
    assert!(ws.remove_container(2).is_some());
    assert_eq!(ws.focused_container_idx(), 0);
    assert_eq!(tiled(&ws), vec![vec![1], vec![2]]);
}

#[test]
fn remove_focused_container_moves_focus_to_the_one_before() {
    let mut ws = workspace_of(&[&[1], &[2], &[3]]);
    let removed = ws.remove_focused_container();
    assert_eq!(removed.map(|c| c.windows().iter().copied().collect::<Vec<_>>()), Some(vec![Window { hwnd: 3 }]));
    assert_eq!(ws.focused_container_idx(), 1);
    ws.focus_container(0);
    assert!(ws.remove_focused_container().is_some());
    assert_eq!(ws.focused_container_idx(), 0);
    assert_eq!(tiled(&ws), vec![vec![2]]);
    assert!(ws.remove_focused_container().is_some());
    assert!(ws.remove_focused_container().is_none());
    assert_eq!(ws.resize_dimensions(), &Vec::new());
}

#[test]
fn new_container_for_window_goes_right_after_the_focused_container() {
    let mut ws = Workspace::default();
    ws.new_container_for_window(Window { hwnd: 1 });
    assert_eq!(tiled(&ws), vec![vec![1]]);
    assert_eq!(ws.focused_container_idx(), 0);
    ws.new_container_for_window(Window { hwnd: 2 });
    assert_eq!(tiled(&ws), vec![vec![1], vec![2]]);
    assert_eq!(ws.focused_container_idx(), 1);
    ws.focus_container(0);
    ws.new_container_for_window(Window { hwnd: 3 });
    assert_eq!(tiled(&ws), vec![vec![1], vec![3], vec![2]]);
    assert_eq!(ws.focused_container_idx(), 1);
    assert_eq!(ws.resize_dimensions(), &vec![None, None, None]);
    assert_eq!(ws.containers()[1].id().chars().count(), 21);
}

#[test]
fn new_container_for_focused_window_of_a_stack() {
    let mut ws = workspace_of(&[&[1, 2], &[3]]);
    ws.focus_container(0);
    let commands = ws.new_container_for_focused_window();
    assert_eq!(commands, Ok(vec![PlatformCommand::Restore(1)]));
    assert_eq!(tiled(&ws), vec![vec![1], vec![2], vec![3]]);
    assert_eq!(ws.focused_container_idx(), 1);
    assert_eq!(ws.resize_dimensions(), &vec![None, None, None]);
}

#[test]
fn new_container_for_focused_window_of_a_single_window_container() {
    let mut ws = workspace_of(&[&[1], &[2], &[3]]);
    ws.focus_container(0);
    assert_eq!(ws.new_container_for_focused_window(), Ok(Vec::new()));
    assert_eq!(tiled(&ws), vec![vec![2], vec![1], vec![3]]);
    assert_eq!(ws.focused_container_idx(), 1);
    assert_eq!(ws.resize_dimensions().len(), 3);
}

#[test]
fn new_container_for_focused_window_of_the_last_single_window_container() {
    let mut ws = workspace_of(&[&[1], &[2]]);
    assert_eq!(ws.new_container_for_focused_window(), Ok(Vec::new()));
    assert_eq!(tiled(&ws), vec![vec![1], vec![2]]);
    assert_eq!(ws.focused_container_idx(), 1);
    let mut single = workspace_of(&[&[1]]);
    assert_eq!(single.new_container_for_focused_window(), Ok(Vec::new()));
    assert_eq!(tiled(&single), vec![vec![1]]);
    assert_eq!(single.focused_container_idx(), 0);
}

#[test]
fn new_container_for_focused_window_fails_without_container_or_window() {
    let mut empty = Workspace::default();
    assert_eq!(empty.new_container_for_focused_window(), Err(WorkspaceError::NoContainer));
    let mut hollow = Workspace::default();
    hollow.add_container(Container::new());
    assert_eq!(hollow.new_container_for_focused_window(), Err(WorkspaceError::NoWindow));
    assert_eq!(tiled(&hollow), vec![Vec::<isize>::new()]);
}

#[test]
fn new_container_for_floating_window_enters_at_the_focused_index() {
    let mut ws = workspace_of(&[&[1], &[2]]);
    ws.floating_windows_mut().push(Window { hwnd: 10 });
    ws.floating_windows_mut().push(Window { hwnd: 11 });
    assert_eq!(ws.new_container_for_floating_window(10), Ok(()));
    assert_eq!(floating(&ws), vec![11]);
    assert_eq!(tiled(&ws), vec![vec![1], vec![10], vec![2]]);
    assert_eq!(ws.focused_container_idx(), 1);
    assert_eq!(ws.resize_dimensions(), &vec![None, None, None]);
}

#[test]
fn new_container_for_floating_window_in_an_empty_ring() {
    let mut ws = Workspace::default();
    ws.floating_windows_mut().push(Window { hwnd: 10 });
    assert_eq!(ws.new_container_for_floating_window(10), Ok(()));
    assert_eq!(tiled(&ws), vec![vec![10]]);
    assert_eq!(ws.focused_container_idx(), 0);
    assert_eq!(floating(&ws), Vec::<isize>::new());
}

#[test]
fn new_container_for_floating_window_fails_without_the_floating_window() {
    let mut ws = workspace_of(&[&[1]]);
    ws.floating_windows_mut().push(Window { hwnd: 10 });
    assert_eq!(ws.new_container_for_floating_window(1), Err(WorkspaceError::NoFloatingWindow));
    assert_eq!(tiled(&ws), vec![vec![1]]);
    assert_eq!(floating(&ws), vec![10]);
}

#[test]
fn remove_focused_floating_window_takes_the_last_match() {
    let mut ws = Workspace::default();
    for hwnd in [10, 11, 10, 12] {
        ws.floating_windows_mut().push(Window { hwnd });
    }
    assert_eq!(ws.remove_focused_floating_window(10), Some(Window { hwnd: 10 }));
    assert_eq!(floating(&ws), vec![10, 11, 12]);
    assert_eq!(ws.remove_focused_floating_window(13), None);
    assert_eq!(floating(&ws), vec![10, 11, 12]);
}

#[test]
fn new_floating_window_takes_the_maximized_window_first() {
    let mut ws = workspace_of(&[&[1]]);
    ws.set_maximized_window(Some(Window { hwnd: 5 }));
    ws.set_maximized_window_restore_idx(Some(0));
    assert_eq!(ws.new_floating_window(), Ok(Vec::new()));
    assert_eq!(floating(&ws), vec![5]);
    assert_eq!(ws.maximized_window(), &None);
    assert_eq!(ws.maximized_window_restore_idx(), None);
    assert_eq!(tiled(&ws), vec![vec![1]]);
}

#[test]
fn new_floating_window_takes_from_the_monocle_container_next() {
    let mut ws = workspace_of(&[&[1, 2], &[3]]);
    ws.focus_container(0);
    assert!(ws.new_monocle_container().is_ok());
    assert_eq!(ws.new_floating_window(), Ok(vec![PlatformCommand::Restore(1)]));
    assert_eq!(floating(&ws), vec![2]);
    assert_eq!(monocle(&ws), Some(vec![1]));
    assert_eq!(ws.new_floating_window(), Ok(Vec::new()));
    assert_eq!(floating(&ws), vec![2, 1]);
    assert_eq!(monocle(&ws), None);
    assert_eq!(ws.monocle_container_restore_idx(), None);
    assert_eq!(tiled(&ws), vec![vec![3]]);
}

#[test]
fn new_floating_window_takes_from_the_focused_tiled_container_last() {
    let mut ws = workspace_of(&[&[1], &[2, 3]]);
    assert_eq!(ws.new_floating_window(), Ok(vec![PlatformCommand::Restore(2)]));
    assert_eq!(floating(&ws), vec![3]);
    assert_eq!(tiled(&ws), vec![vec![1], vec![2]]);
    assert_eq!(ws.new_floating_window(), Ok(Vec::new()));
    assert_eq!(floating(&ws), vec![3, 2]);
    assert_eq!(tiled(&ws), vec![vec![1]]);
    assert_eq!(ws.focused_container_idx(), 0);
    assert_eq!(ws.resize_dimensions(), &vec![None]);
}

#[test]
fn new_floating_window_fails_without_a_window_to_give() {
    let mut empty = Workspace::default();
    assert_eq!(empty.new_floating_window(), Err(WorkspaceError::NoContainer));
    let mut hollow = Workspace::default();
    hollow.add_container(Container::new());
    assert_eq!(hollow.new_floating_window(), Err(WorkspaceError::NoWindow));
    let mut hollow_monocle = workspace_of(&[&[1]]);
    hollow_monocle.set_monocle_container(Some(Container::new()));
    assert_eq!(hollow_monocle.new_floating_window(), Err(WorkspaceError::NoWindow));
    assert_eq!(tiled(&hollow_monocle), vec![vec![1]]);
    assert_eq!(monocle(&hollow_monocle), Some(Vec::new()));
}

#[test]
fn new_monocle_container_moves_the_whole_container_and_keeps_its_size_override() {
    let mut ws = workspace_of(&[&[1], &[2, 3], &[4]]);
    ws.set_resize_dimensions(vec![Some(rect(1)), Some(rect(2)), Some(rect(3))]);
    ws.focus_container(1);
    assert_eq!(
        ws.new_monocle_container(),
        Ok(vec![PlatformCommand::Hide(2), PlatformCommand::Restore(3)])
    );
    assert_eq!(tiled(&ws), vec![vec![1], vec![4]]);
    assert_eq!(monocle(&ws), Some(vec![2, 3]));
    assert_eq!(ws.monocle_container_restore_idx(), Some(1));
    assert_eq!(ws.focused_container_idx(), 0);
    assert_eq!(ws.resize_dimensions(), &vec![Some(rect(1)), Some(rect(2)), Some(rect(3))]);
}

#[test]
fn new_monocle_container_fails_in_an_empty_ring() {
    let mut ws = Workspace::default();
    assert_eq!(ws.new_monocle_container(), Err(WorkspaceError::NoContainer));
    assert_eq!(monocle(&ws), None);
    assert_eq!(ws.monocle_container_restore_idx(), None);
}

#[test]
fn monocle_round_trip_restores_index_order_and_focus() {
    let mut ws = workspace_of(&[&[1], &[2], &[3]]);
    ws.set_resize_dimensions(vec![Some(rect(1)), Some(rect(2)), Some(rect(3))]);
    ws.focus_container(1);
    let ids: Vec<String> = ws.containers().iter().map(|c| c.id().clone()).collect();
    assert!(ws.new_monocle_container().is_ok());
    assert_eq!(ws.reintegrate_monocle_container(), Ok(vec![PlatformCommand::Restore(2)]));
    assert_eq!(ws.focused_container_idx(), 1);
    assert_eq!(tiled(&ws), vec![vec![1], vec![2], vec![3]]);
    let after: Vec<String> = ws.containers().iter().map(|c| c.id().clone()).collect();
    assert_eq!(after, ids);
    assert_eq!(monocle(&ws), None);
    assert_eq!(ws.monocle_container_restore_idx(), None);
    assert_eq!(ws.resize_dimensions(), &vec![Some(rect(1)), Some(rect(2)), Some(rect(3))]);
}

#[test]
fn reintegrate_monocle_container_pads_a_ring_that_became_too_short() {
    let mut ws = workspace_of(&[&[1], &[2], &[3]]);
    assert!(ws.new_monocle_container().is_ok());
    assert_eq!(ws.monocle_container_restore_idx(), Some(2));
    assert!(ws.remove_window(1).is_ok());
    assert!(ws.remove_window(2).is_ok());
    assert_eq!(tiled(&ws), Vec::<Vec<isize>>::new());
    assert_eq!(ws.resize_dimensions().len(), 1);
    assert_eq!(ws.reintegrate_monocle_container(), Ok(vec![PlatformCommand::Restore(3)]));
    assert_eq!(tiled(&ws), vec![vec![], vec![], vec![3]]);
    assert_eq!(ws.focused_container_idx(), 2);
    assert_eq!(ws.resize_dimensions().len(), 3);
    assert_eq!(ws.containers()[0].id(), ws.containers()[1].id());
}

#[test]
fn reintegrate_monocle_container_fails_without_index_or_container() {
    let mut ws = workspace_of(&[&[1]]);
    assert_eq!(ws.reintegrate_monocle_container(), Err(WorkspaceError::NoMonocleRestoreIdx));
    ws.set_monocle_container_restore_idx(Some(0));
    assert_eq!(ws.reintegrate_monocle_container(), Err(WorkspaceError::NoMonocleContainer));
    assert_eq!(ws.monocle_container_restore_idx(), Some(0));
    assert_eq!(tiled(&ws), vec![vec![1]]);
    ws.set_monocle_container_restore_idx(None);
    ws.set_monocle_container(Some(container_of(&[5])));
    assert_eq!(ws.reintegrate_monocle_container(), Err(WorkspaceError::NoMonocleRestoreIdx));
    assert_eq!(monocle(&ws), Some(vec![5]));
}

#[test]
fn new_maximized_window_takes_the_focused_floating_window_first() {
    let mut ws = workspace_of(&[&[1], &[2]]);
    ws.floating_windows_mut().push(Window { hwnd: 10 });
    ws.floating_windows_mut().push(Window { hwnd: 11 });
    assert_eq!(ws.new_maximized_window(10), Ok(vec![PlatformCommand::Maximize(10)]));
    assert_eq!(ws.maximized_window(), &Some(Window { hwnd: 10 }));
    assert_eq!(ws.maximized_window_restore_idx(), Some(1));
    assert_eq!(floating(&ws), vec![11]);
    assert_eq!(tiled(&ws), vec![vec![1], vec![2]]);
    assert_eq!(ws.focused_container_idx(), 1);
}

#[test]
fn new_maximized_window_takes_from_the_monocle_container_next() {
    let mut ws = workspace_of(&[&[1], &[2, 3], &[4]]);
    ws.focus_container(1);
    assert!(ws.new_monocle_container().is_ok());
    assert_eq!(
        ws.new_maximized_window(99),
        Ok(vec![PlatformCommand::Restore(2), PlatformCommand::Maximize(3)])
    );
    assert_eq!(ws.maximized_window(), &Some(Window { hwnd: 3 }));
    assert_eq!(ws.maximized_window_restore_idx(), Some(1));
    assert_eq!(monocle(&ws), Some(vec![2]));
    assert_eq!(ws.monocle_container_restore_idx(), Some(1));
    assert_eq!(tiled(&ws), vec![vec![1], vec![4]]);
}

#[test]
fn new_maximized_window_clears_a_monocle_container_that_it_empties() {
    let mut ws = workspace_of(&[&[1], &[2]]);
    assert!(ws.new_monocle_container().is_ok());
    assert_eq!(ws.new_maximized_window(99), Ok(vec![PlatformCommand::Maximize(2)]));
    assert_eq!(monocle(&ws), None);
    assert_eq!(ws.monocle_container_restore_idx(), None);
    assert_eq!(ws.maximized_window_restore_idx(), Some(1));
}

#[test]
fn new_maximized_window_takes_from_the_focused_tiled_container_last() {
    let mut ws = workspace_of(&[&[1], &[2, 3]]);
    assert_eq!(
        ws.new_maximized_window(99),
        Ok(vec![PlatformCommand::Restore(2), PlatformCommand::Maximize(3)])
    );
    assert_eq!(ws.maximized_window(), &Some(Window { hwnd: 3 }));
    assert_eq!(ws.maximized_window_restore_idx(), Some(1));
    assert_eq!(tiled(&ws), vec![vec![1], vec![2]]);
    assert_eq!(ws.focused_container_idx(), 0);
    assert_eq!(ws.resize_dimensions().len(), 2);
}

#[test]
fn new_maximized_window_removes_a_tiled_container_that_it_empties() {
    let mut ws = workspace_of(&[&[1], &[2]]);
    assert_eq!(ws.new_maximized_window(99), Ok(vec![PlatformCommand::Maximize(2)]));
    assert_eq!(tiled(&ws), vec![vec![1]]);
    assert_eq!(ws.focused_container_idx(), 0);
    assert_eq!(ws.resize_dimensions(), &vec![None]);
    assert_eq!(ws.maximized_window_restore_idx(), Some(1));
}

#[test]
fn new_maximized_window_fails_without_a_window_to_give() {
    let mut empty = Workspace::default();
    assert_eq!(empty.new_maximized_window(1), Err(WorkspaceError::NoContainer));
    let mut hollow = Workspace::default();
    hollow.add_container(Container::new());
    assert_eq!(hollow.new_maximized_window(1), Err(WorkspaceError::NoWindow));
    assert_eq!(hollow.maximized_window(), &None);
    let mut hollow_monocle = workspace_of(&[&[1]]);
    hollow_monocle.set_monocle_container(Some(Container::new()));
    assert_eq!(hollow_monocle.new_maximized_window(1), Err(WorkspaceError::NoWindow));
    assert_eq!(tiled(&hollow_monocle), vec![vec![1]]);
}

#[test]
fn maximized_round_trip_restores_the_window_to_its_index() {
    let mut ws = workspace_of(&[&[1], &[2], &[3]]);
    ws.focus_container(1);
    assert!(ws.new_maximized_window(99).is_ok());
    assert_eq!(tiled(&ws), vec![vec![1], vec![3]]);
    assert_eq!(ws.reintegrate_maximized_window(), Ok(vec![PlatformCommand::Restore(2)]));
    assert_eq!(tiled(&ws), vec![vec![1], vec![2], vec![3]]);
    assert_eq!(ws.focused_container_idx(), 1);
    assert_eq!(ws.maximized_window(), &None);
    assert_eq!(ws.maximized_window_restore_idx(), None);
    assert_eq!(ws.resize_dimensions().len(), 3);
}

#[test]
fn maximized_round_trip_out_of_a_stack_puts_the_window_before_the_rest() {
    let mut ws = workspace_of(&[&[1], &[2, 3]]);
    assert!(ws.new_maximized_window(99).is_ok());
    assert_eq!(ws.reintegrate_maximized_window(), Ok(vec![PlatformCommand::Restore(3)]));
    assert_eq!(tiled(&ws), vec![vec![1], vec![3], vec![2]]);
    assert_eq!(ws.focused_container_idx(), 1);
    assert_eq!(ws.resize_dimensions().len(), 3);
}

#[test]
fn reintegrate_maximized_window_pads_a_ring_that_is_too_short() {
    let mut ws = workspace_of(&[&[1]]);
    ws.set_maximized_window(Some(Window { hwnd: 9 }));
    ws.set_maximized_window_restore_idx(Some(3));
    assert_eq!(ws.reintegrate_maximized_window(), Ok(vec![PlatformCommand::Restore(9)]));
    assert_eq!(tiled(&ws), vec![vec![1], vec![], vec![], vec![9]]);
    assert_eq!(ws.focused_container_idx(), 3);
    assert_eq!(ws.resize_dimensions(), &vec![None, None, None, None]);
    let mut empty = Workspace::default();
    empty.set_maximized_window(Some(Window { hwnd: 9 }));
    empty.set_maximized_window_restore_idx(Some(1));
    assert!(empty.reintegrate_maximized_window().is_ok());
    assert_eq!(tiled(&empty), vec![vec![], vec![9]]);
    assert_eq!(empty.focused_container_idx(), 1);
}

#[test]
fn reintegrate_maximized_window_fails_without_index_or_window() {
    let mut ws = workspace_of(&[&[1]]);
    assert_eq!(ws.reintegrate_maximized_window(), Err(WorkspaceError::NoMaximizedRestoreIdx));
    ws.set_maximized_window_restore_idx(Some(0));
    assert_eq!(ws.reintegrate_maximized_window(), Err(WorkspaceError::NoMaximizedWindow));
    assert_eq!(tiled(&ws), vec![vec![1]]);
    assert_eq!(ws.maximized_window_restore_idx(), Some(0));
}

#[test]
fn promote_container_moves_container_and_size_override_to_the_front() {
    let mut ws = workspace_of(&[&[1], &[2], &[3]]);
    ws.set_resize_dimensions(vec![Some(rect(1)), None, Some(rect(3))]);
    assert_eq!(ws.promote_container(), Ok(()));
    assert_eq!(tiled(&ws), vec![vec![3], vec![1], vec![2]]);
    assert_eq!(ws.focused_container_idx(), 0);
    assert_eq!(ws.resize_dimensions(), &vec![Some(rect(3)), Some(rect(1)), None]);
}

#[test]
fn promote_container_of_the_primary_container_changes_nothing() {
    let mut ws = workspace_of(&[&[1], &[2], &[3]]);
    ws.set_resize_dimensions(vec![Some(rect(1)), None, Some(rect(3))]);
    ws.focus_container(0);
    assert_eq!(ws.promote_container(), Ok(()));
    assert_eq!(tiled(&ws), vec![vec![1], vec![2], vec![3]]);
    assert_eq!(ws.focused_container_idx(), 0);
    assert_eq!(ws.resize_dimensions(), &vec![Some(rect(1)), None, Some(rect(3))]);
}

#[test]
fn promote_container_goes_to_the_primary_slot_of_a_custom_layout() {
    let mut ws = workspace_of(&[&[1], &[2], &[3]]);
    ws.set_layout(Layout::Custom(CustomLayout { primary_slot: Some(1) }));
    assert_eq!(ws.promote_container(), Ok(()));
    assert_eq!(tiled(&ws), vec![vec![1], vec![3], vec![2]]);
    assert_eq!(ws.focused_container_idx(), 1);
}

#[test]
fn promote_container_fails_before_changing_anything() {
    let mut empty = Workspace::default();
    assert_eq!(empty.promote_container(), Err(WorkspaceError::NoContainer));
    let mut ws = workspace_of(&[&[1], &[2], &[3]]);
    ws.set_resize_dimensions(vec![Some(rect(1)), None, Some(rect(3))]);
    ws.set_layout(Layout::Custom(CustomLayout { primary_slot: None }));
    assert_eq!(ws.promote_container(), Err(WorkspaceError::NoPrimaryColumn));
    ws.set_layout(Layout::Custom(CustomLayout { primary_slot: Some(3) }));
    assert_eq!(ws.promote_container(), Err(WorkspaceError::NoPrimarySlot));
    assert_eq!(tiled(&ws), vec![vec![1], vec![2], vec![3]]);
    assert_eq!(ws.focused_container_idx(), 2);
    assert_eq!(ws.resize_dimensions(), &vec![Some(rect(1)), None, Some(rect(3))]);
    ws.set_layout(Layout::Default(DefaultLayout::Columns));
    assert_eq!(ws.promote_container(), Ok(()));
}

#[test]
fn move_window_to_container_keeps_the_target_index_when_the_source_stays() {
    let mut a = container_of(&[1, 2]);
    a.focus_window(0);
    let mut ws = Workspace::default();
    ws.add_container(a);
    ws.add_container(container_of(&[3]));
    ws.focus_container(0);
    assert_eq!(
        ws.move_window_to_container(1),
        Ok(vec![
            PlatformCommand::Restore(2),
            PlatformCommand::Hide(3),
            PlatformCommand::Restore(1)
        ])
    );
    assert_eq!(tiled(&ws), vec![vec![2], vec![3, 1]]);
    assert_eq!(ws.focused_container_idx(), 1);
    assert_eq!(ws.containers()[1].focused_window(), Some(&Window { hwnd: 1 }));
    assert_eq!(ws.resize_dimensions().len(), 2);
}

#[test]
fn move_window_to_container_lowers_the_target_index_when_the_source_leaves() {
    let mut ws = workspace_of(&[&[1], &[3]]);
    ws.focus_container(0);
    assert_eq!(
        ws.move_window_to_container(1),
        Ok(vec![PlatformCommand::Hide(3), PlatformCommand::Restore(1)])
    );
    assert_eq!(tiled(&ws), vec![vec![3, 1]]);
    assert_eq!(ws.focused_container_idx(), 0);
    assert_eq!(ws.resize_dimensions(), &vec![None]);
}

#[test]
fn move_window_to_container_before_the_source_keeps_the_target_index() {
    let mut ws = workspace_of(&[&[1], &[2], &[3]]);
    assert_eq!(
        ws.move_window_to_container(0),
        Ok(vec![PlatformCommand::Hide(1), PlatformCommand::Restore(3)])
    );
    assert_eq!(tiled(&ws), vec![vec![1, 3], vec![2]]);
    assert_eq!(ws.focused_container_idx(), 0);
}

#[test]
fn move_window_to_container_fails_before_changing_anything() {
    let mut empty = Workspace::default();
    assert_eq!(empty.move_window_to_container(0), Err(WorkspaceError::NoContainer));
    let mut hollow = Workspace::default();
    hollow.add_container(Container::new());
    assert_eq!(hollow.move_window_to_container(0), Err(WorkspaceError::NoWindow));
    let mut ws = workspace_of(&[&[1], &[2, 3]]);
    assert_eq!(ws.move_window_to_container(2), Err(WorkspaceError::NoContainer));
    ws.focus_container(0);
    assert_eq!(ws.move_window_to_container(2), Err(WorkspaceError::NoContainer));
    assert_eq!(tiled(&ws), vec![vec![1], vec![2, 3]]);
    assert_eq!(ws.focused_container_idx(), 0);
    assert_eq!(ws.resize_dimensions().len(), 2);
}

#[test]
fn focus_container_by_window_focuses_container_and_window() {
    let mut ws = workspace_of(&[&[1, 2], &[3, 4]]);
    assert_eq!(ws.focus_container_by_window(1), Ok(()));
    assert_eq!(ws.focused_container_idx(), 0);
    assert_eq!(ws.containers()[0].focused_window(), Some(&Window { hwnd: 1 }));
    assert_eq!(ws.focus_container_by_window(4), Ok(()));
    assert_eq!(ws.focused_container_idx(), 1);
    assert_eq!(ws.containers()[1].focused_window_idx(), 1);
}

#[test]
fn focus_container_by_window_fails_for_a_window_that_is_not_tiled() {
    let mut ws = workspace_of(&[&[1], &[2]]);
    ws.floating_windows_mut().push(Window { hwnd: 10 });
    assert_eq!(ws.focus_container_by_window(10), Err(WorkspaceError::NoContainerOrWindow));
    assert_eq!(ws.focus_container_by_window(7), Err(WorkspaceError::NoContainerOrWindow));
    assert_eq!(ws.focused_container_idx(), 1);
}

#[test]
fn remove_window_from_the_floating_windows() {
    let mut ws = workspace_of(&[&[1]]);
    for hwnd in [10, 11, 10] {
        ws.floating_windows_mut().push(Window { hwnd });
    }
    assert_eq!(ws.remove_window(10), Ok(Vec::new()));
    assert_eq!(floating(&ws), vec![11]);
    assert_eq!(tiled(&ws), vec![vec![1]]);
}

#[test]
fn remove_window_from_the_monocle_container() {
    let mut ws = workspace_of(&[&[1], &[2, 3]]);
    assert!(ws.new_monocle_container().is_ok());
    assert_eq!(ws.remove_window(2), Ok(Vec::new()));
    assert_eq!(monocle(&ws), Some(vec![3]));
    assert_eq!(ws.monocle_container_restore_idx(), Some(1));
    assert_eq!(ws.remove_window(3), Ok(Vec::new()));
    assert_eq!(monocle(&ws), None);
    assert_eq!(ws.monocle_container_restore_idx(), None);
}

#[test]
fn remove_window_from_the_maximized_slot() {
    let mut ws = workspace_of(&[&[1], &[2]]);
    assert!(ws.new_maximized_window(0).is_ok());
    assert_eq!(ws.remove_window(2), Ok(vec![PlatformCommand::Unmaximize(2)]));
    assert_eq!(ws.maximized_window(), &None);
    assert_eq!(ws.maximized_window_restore_idx(), None);
    assert_eq!(tiled(&ws), vec![vec![1]]);
}

#[test]
fn remove_window_from_a_tiled_stack_shows_what_remains() {
    let mut ws = workspace_of(&[&[1, 2, 3], &[4]]);
    assert_eq!(
        ws.remove_window(3),
        Ok(vec![PlatformCommand::Hide(1), PlatformCommand::Restore(2)])
    );
    assert_eq!(tiled(&ws), vec![vec![1, 2], vec![4]]);
    assert_eq!(ws.focused_container_idx(), 1);
    assert_eq!(ws.resize_dimensions().len(), 2);
}

#[test]
fn remove_window_removes_a_container_that_it_empties() {
    let mut ws = workspace_of(&[&[1], &[2], &[3]]);
    ws.set_resize_dimensions(vec![Some(rect(1)), Some(rect(2)), Some(rect(3))]);
    assert_eq!(ws.remove_window(1), Ok(Vec::new()));
    assert_eq!(tiled(&ws), vec![vec![2], vec![3]]);
    assert_eq!(ws.resize_dimensions(), &vec![Some(rect(2)), Some(rect(3))]);
    assert_eq!(ws.focused_container_idx(), 1);
    assert_eq!(ws.remove_window(3), Ok(Vec::new()));
    assert_eq!(tiled(&ws), vec![vec![2]]);
    assert_eq!(ws.resize_dimensions(), &vec![Some(rect(2))]);
    assert_eq!(ws.focused_container_idx(), 0);
}

#[test]
fn remove_window_fails_for_an_unknown_handle() {
    let mut ws = workspace_of(&[&[1], &[2]]);
    assert_eq!(ws.remove_window(3), Err(WorkspaceError::NoWindow));
    assert_eq!(tiled(&ws), vec![vec![1], vec![2]]);
    assert_eq!(Workspace::default().remove_window(0), Err(WorkspaceError::NoWindow));
}

#[test]
fn error_kinds_and_messages() {
    assert_eq!(WorkspaceError::NoContainer.kind(), ErrorKind::NotFound);
    assert_eq!(WorkspaceError::NoWindow.kind(), ErrorKind::NotFound);
    assert_eq!(WorkspaceError::NoContainerOrWindow.kind(), ErrorKind::NotFound);
    assert_eq!(WorkspaceError::NoFloatingWindow.kind(), ErrorKind::NotFound);
    assert_eq!(WorkspaceError::NoMonocleContainer.kind(), ErrorKind::NotFound);
    assert_eq!(WorkspaceError::NoMonocleRestoreIdx.kind(), ErrorKind::NotFound);
    assert_eq!(WorkspaceError::NoMaximizedWindow.kind(), ErrorKind::NotFound);
    assert_eq!(WorkspaceError::NoMaximizedRestoreIdx.kind(), ErrorKind::NotFound);
    assert_eq!(WorkspaceError::NoPrimarySlot.kind(), ErrorKind::NotFound);
    assert_eq!(WorkspaceError::NoPrimaryColumn.kind(), ErrorKind::InvalidLayoutConfiguration);
    assert_eq!(WorkspaceError::PositionOutOfRange.kind(), ErrorKind::InvalidLayoutConfiguration);
    assert_eq!(WorkspaceError::NoContainer.message(), "there is no container");
    assert_eq!(WorkspaceError::NoWindow.message(), "there is no window");
    assert_eq!(WorkspaceError::NoContainerOrWindow.message(), "there is no container/window");
    assert_eq!(WorkspaceError::NoFloatingWindow.message(), "there is no floating window");
    assert_eq!(WorkspaceError::NoMonocleContainer.message(), "there is no monocle container");
    assert_eq!(
        WorkspaceError::NoMonocleRestoreIdx.message(),
        "there is no monocle restore index"
    );
    assert_eq!(
        WorkspaceError::NoPrimaryColumn.message(),
        "this custom layout does not have a primary column"
    );
}
