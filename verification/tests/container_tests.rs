use std::collections::VecDeque;

use komorebi::container::Container;
use komorebi::window::PlatformCommand;
use komorebi::window::Window;
use komorebi::window::WindowExe;

fn container_of(hwnds: &[isize]) -> Container {
    let mut container = Container::new();
    for hwnd in hwnds {
        container.add_window(Window { hwnd: *hwnd });
    }
    container
}

fn handles(container: &Container) -> Vec<isize> {
    container.windows().iter().map(|w| w.hwnd).collect()
}

fn exe(hwnd: isize, name: &str) -> WindowExe {
    WindowExe { hwnd, exe: name.to_string() }
}

#[test]
fn new_container_is_empty_with_an_identity_of_21_characters() {
    let container = Container::new();
    assert!(container.is_empty());
    assert!(container.windows().is_empty());
    assert_eq!(container.focused_window_idx(), 0);
    assert_eq!(container.focused_window(), None);
    assert_eq!(container.id().chars().count(), 21);
    assert_eq!(komorebi::container::CONTAINER_ID_LEN, 21);
}

#[test]
fn default_container_is_empty() {
    let container = Container::default();
    assert!(container.is_empty());
    assert_eq!(container.id().chars().count(), 21);
}

#[test]
fn with_window_holds_the_window_alone() {
    let container = Container::with_window(Window { hwnd: 7 });
    assert_eq!(handles(&container), vec![7]);
    assert_eq!(container.focused_window(), Some(&Window { hwnd: 7 }));
}

#[test]
fn add_window_appends_and_focuses() {
    let mut container = Container::new();
    container.add_window(Window { hwnd: 1 });
    assert_eq!(container.focused_window_idx(), 0);
    container.add_window(Window { hwnd: 2 });
    container.add_window(Window { hwnd: 3 });
    assert_eq!(handles(&container), vec![1, 2, 3]);
    assert_eq!(container.focused_window_idx(), 2);
    assert_eq!(container.focused_window(), Some(&Window { hwnd: 3 }));
}

#[test]
fn focus_window_ignores_an_index_past_the_end() {
    let mut container = container_of(&[1, 2, 3]);
    container.focus_window(0);
    assert_eq!(container.focused_window_idx(), 0);
    container.focus_window(3);
    assert_eq!(container.focused_window_idx(), 0);
}

#[test]
fn remove_focused_window_moves_focus_to_the_window_before() {
    let mut container = container_of(&[1, 2, 3]);
    assert_eq!(container.remove_focused_window(), Some(Window { hwnd: 3 }));
    assert_eq!(handles(&container), vec![1, 2]);
    assert_eq!(container.focused_window_idx(), 1);
    container.focus_window(0);
    assert_eq!(container.remove_focused_window(), Some(Window { hwnd: 1 }));
    assert_eq!(handles(&container), vec![2]);
    assert_eq!(container.focused_window_idx(), 0);
    assert_eq!(container.remove_focused_window(), Some(Window { hwnd: 2 }));
    assert!(container.is_empty());
    assert_eq!(container.remove_focused_window(), None);
}

#[test]
fn remove_window_by_idx_follows_the_ring_policy() {
    let mut container = container_of(&[1, 2, 3, 4]);
    container.focus_window(2);
    assert_eq!(container.remove_window_by_idx(0), Some(Window { hwnd: 1 }));
    assert_eq!(container.focused_window(), Some(&Window { hwnd: 3 }));
    assert_eq!(container.remove_window_by_idx(2), Some(Window { hwnd: 4 }));
    assert_eq!(container.focused_window(), Some(&Window { hwnd: 3 }));
    assert_eq!(container.remove_window_by_idx(5), None);
    assert_eq!(handles(&container), vec![2, 3]);
}

#[test]
fn contains_window_looks_for_the_handle() {
    let container = container_of(&[1, 2, 3]);
    assert!(container.contains_window(2));
    assert!(!container.contains_window(4));
    assert!(!Container::new().contains_window(0));
}

#[test]
fn idx_for_window_gives_the_last_index_of_the_handle() {
    let container = container_of(&[5, 6, 5, 7]);
    assert_eq!(container.idx_for_window(5), Some(2));
    assert_eq!(container.idx_for_window(6), Some(1));
    assert_eq!(container.idx_for_window(7), Some(3));
    assert_eq!(container.idx_for_window(8), None);
}

#[test]
fn hwnd_from_exe_gives_the_first_match_in_ring_order() {
    let container = container_of(&[1, 2, 3]);
    let reports = vec![exe(3, "code.exe"), exe(2, "code.exe"), exe(1, "term.exe")];
    assert_eq!(container.hwnd_from_exe("code.exe", &reports), Some(2));
    assert_eq!(container.hwnd_from_exe("term.exe", &reports), Some(1));
    assert_eq!(container.hwnd_from_exe("none.exe", &reports), None);
    assert_eq!(container.hwnd_from_exe("code.exe", &Vec::new()), None);
}

#[test]
fn hwnd_from_exe_passes_over_windows_without_a_report() {
    let container = container_of(&[1, 2]);
    let reports = vec![exe(9, "code.exe"), exe(2, "code.exe")];
    assert_eq!(container.hwnd_from_exe("code.exe", &reports), Some(2));
}

#[test]
fn load_focused_window_restores_the_focused_and_hides_the_rest() {
    let mut container = container_of(&[1, 2, 3]);
    container.focus_window(1);
    assert_eq!(
        container.load_focused_window(),
        vec![PlatformCommand::Hide(1), PlatformCommand::Restore(2), PlatformCommand::Hide(3)]
    );
    assert_eq!(Container::new().load_focused_window(), Vec::new());
}

#[test]
fn windows_mut_changes_the_ring_in_place() {
    let mut container = container_of(&[1, 2]);
    container.windows_mut().push_back(Window { hwnd: 3 });
    assert_eq!(handles(&container), vec![1, 2, 3]);
    assert_eq!(container.focused_window_idx(), 1);
}

#[test]
fn focused_window_mut_reaches_the_focused_window() {
    let mut container = container_of(&[1, 2]);
    if let Some(window) = container.focused_window_mut() {
        window.hwnd = 20;
    }
    assert_eq!(handles(&container), vec![1, 20]);
    assert!(Container::new().focused_window_mut().is_none());
}

#[test]
fn clone_keeps_identity_windows_and_focus() {
    let mut container = container_of(&[1, 2, 3]);
    container.focus_window(1);
    let copy = container.clone();
    assert_eq!(copy.id(), container.id());
    assert_eq!(handles(&copy), vec![1, 2, 3]);
    assert_eq!(copy.focused_window_idx(), 1);
}

#[test]
fn windows_are_equal_by_handle() {
    assert_eq!(Window { hwnd: 4 }, Window { hwnd: 4 });
    assert_ne!(Window { hwnd: 4 }, Window { hwnd: 5 });
}

#[test]
fn from_parts_keeps_identity_windows_and_a_valid_focus() {
    let windows = VecDeque::from(vec![Window { hwnd: 1 }, Window { hwnd: 2 }]);
    let container = Container::from_parts("slot".to_string(), windows.clone(), 1);
    assert_eq!(container.id(), "slot");
    assert_eq!(container.windows(), &windows);
    assert_eq!(container.focused_window_idx(), 1);
    assert!(container.is_well_formed());
    let clamped = Container::from_parts("slot".to_string(), windows, 2);
    assert_eq!(clamped.focused_window_idx(), 0);
    assert!(clamped.is_well_formed());
    let empty = Container::from_parts(String::new(), VecDeque::new(), 5);
    assert!(empty.is_empty());
    assert_eq!(empty.focused_window_idx(), 0);
}
