use komorebi::config::WorkspaceConfig;
use komorebi::container::Container;
use komorebi::layout::Axis;
use komorebi::layout::CustomLayout;
use komorebi::layout::CycleDirection;
use komorebi::layout::DefaultLayout;
use komorebi::layout::Layout;
use komorebi::layout::OperationDirection;
use komorebi::rect::Rect;
use komorebi::window::PlatformCommand;
use komorebi::window::Window;
use komorebi::window::WindowExe;
use komorebi::workspace::Workspace;
use komorebi::workspace::DEFAULT_CONTAINER_PADDING;
use komorebi::workspace::DEFAULT_WORKSPACE_PADDING;

fn container_of(hwnds: &[isize]) -> Container {
    let mut container = Container::new();
    for hwnd in hwnds {
        container.add_window(Window { hwnd: *hwnd });
    }
    container
}

fn workspace_of(groups: &[&[isize]]) -> Workspace {
    let mut ws = Workspace::default();
    for group in groups {
        ws.add_container(container_of(group));
    }
    ws
}

fn exe(hwnd: isize, name: &str) -> WindowExe {
    WindowExe { hwnd, exe: name.to_string() }
}

fn full_workspace() -> Workspace {
    let mut ws = workspace_of(&[&[1, 2], &[3]]);
    ws.set_maximized_window(Some(Window { hwnd: 4 }));
    ws.set_monocle_container(Some(container_of(&[5, 6])));
    ws.floating_windows_mut().push(Window { hwnd: 7 });
    ws.floating_windows_mut().push(Window { hwnd: 8 });
    ws
}

#[test]
fn default_workspace_is_empty_and_tiles_by_bsp() {
    let ws = Workspace::default();
    assert_eq!(ws.name(), &None);
    assert!(ws.containers().is_empty());
    assert_eq!(ws.focused_container_idx(), 0);
    assert!(ws.focused_container().is_none());
    assert!(ws.monocle_container().is_none());
    assert_eq!(ws.monocle_container_restore_idx(), None);
    assert_eq!(ws.maximized_window(), &None);
    assert_eq!(ws.maximized_window_restore_idx(), None);
    assert!(ws.floating_windows().is_empty());
    assert_eq!(ws.layout(), &Layout::Default(DefaultLayout::BSP));
    assert!(ws.layout_rules().is_empty());
    assert_eq!(ws.layout_flip(), None);
    assert_eq!(ws.workspace_padding(), Some(10));
    assert_eq!(ws.container_padding(), Some(10));
    assert_eq!(DEFAULT_WORKSPACE_PADDING, 10);
    assert_eq!(DEFAULT_CONTAINER_PADDING, 10);
    assert!(ws.latest_layout().is_empty());
    assert!(ws.resize_dimensions().is_empty());
    assert_eq!(ws.tile(), &true);
    assert!(!ws.is_poker_workspace());
}

#[test]
fn setters_change_one_field_each() {
    let mut ws = workspace_of(&[&[1]]);
    ws.set_name(Some("main".to_string()));
    ws.set_layout_flip(Some(Axis::Horizontal));
    ws.set_workspace_padding(Some(3));
    ws.set_container_padding(None);
    ws.set_latest_layout(vec![Rect { left: 0, top: 0, right: 5, bottom: 5 }]);
    ws.set_tile(false);
    ws.set_is_poker_workspace(true);
    ws.set_layout_rules(vec![(2, Layout::Default(DefaultLayout::Rows))]);
    assert_eq!(ws.name(), &Some("main".to_string()));
    assert_eq!(ws.layout_flip(), Some(Axis::Horizontal));
    assert_eq!(ws.workspace_padding(), Some(3));
    assert_eq!(ws.container_padding(), None);
    assert_eq!(ws.latest_layout(), &vec![Rect { left: 0, top: 0, right: 5, bottom: 5 }]);
    assert_eq!(ws.tile(), &false);
    assert!(ws.is_poker_workspace());
    assert_eq!(ws.layout_rules(), &vec![(2, Layout::Default(DefaultLayout::Rows))]);
    assert_eq!(ws.containers().len(), 1);
}

#[test]
fn mutable_accessors_reach_the_fields() {
    let mut ws = workspace_of(&[&[1], &[2]]);
    *ws.layout_mut() = Layout::Default(DefaultLayout::Columns);
    ws.layout_rules_mut().push((4, Layout::Default(DefaultLayout::BSP)));
    ws.resize_dimensions_mut().push(None);
    *ws.maximized_window_mut() = Some(Window { hwnd: 9 });
    *ws.monocle_container_mut() = Some(container_of(&[8]));
    ws.containers_mut().focus(0);
    if let Some(container) = ws.focused_container_mut() {
        container.add_window(Window { hwnd: 3 });
    }
    assert_eq!(ws.layout(), &Layout::Default(DefaultLayout::Columns));
    assert_eq!(ws.layout_rules().len(), 1);
    assert_eq!(ws.resize_dimensions().len(), 3);
    assert_eq!(ws.maximized_window(), &Some(Window { hwnd: 9 }));
    assert!(ws.monocle_container().is_some());
    assert_eq!(ws.focused_container_idx(), 0);
    assert_eq!(
        ws.focused_container().map(|c| c.windows().iter().copied().collect::<Vec<_>>()),
        Some(vec![Window { hwnd: 1 }, Window { hwnd: 3 }])
    );
    let mut empty = Workspace::default();
    assert!(empty.focused_container_mut().is_none());
}

#[test]
fn contains_window_searches_every_placement() {
    let ws = full_workspace();
    for hwnd in 1..=8 {
        assert!(ws.contains_window(hwnd));
    }
    assert!(!ws.contains_window(9));
    assert!(!Workspace::default().contains_window(1));
}

#[test]
fn contains_managed_window_searches_every_placement() {
    let ws = full_workspace();
    for hwnd in 1..=8 {
        assert!(ws.contains_managed_window(hwnd));
    }
    assert!(!ws.contains_managed_window(9));
    assert!(!Workspace::default().contains_managed_window(1));
}

#[test]
fn contains_managed_window_finds_a_window_that_only_floats() {
    let mut ws = Workspace::default();
    ws.floating_windows_mut().push(Window { hwnd: 7 });
    assert!(ws.contains_managed_window(7));
    assert!(ws.contains_window(7));
    assert!(!ws.contains_managed_window(8));
    assert!(ws.remove_window(7).is_ok());
    assert!(!ws.contains_managed_window(7));
}

#[test]
fn is_focused_window_monocle_or_maximized_looks_at_those_two_slots() {
    let ws = full_workspace();
    assert!(ws.is_focused_window_monocle_or_maximized(4));
    assert!(ws.is_focused_window_monocle_or_maximized(5));
    assert!(ws.is_focused_window_monocle_or_maximized(6));
    assert!(!ws.is_focused_window_monocle_or_maximized(1));
    assert!(!ws.is_focused_window_monocle_or_maximized(7));
    assert!(!Workspace::default().is_focused_window_monocle_or_maximized(4));
}

#[test]
fn container_for_window_searches_the_tiled_ring_then_the_monocle_container() {
    let ws = workspace_of(&[&[1, 2], &[3], &[2, 4]]);
    assert_eq!(ws.container_idx_for_window(2), Some(2));
    assert_eq!(ws.container_idx_for_window(1), Some(0));
    assert_eq!(ws.container_idx_for_window(9), None);
    assert_eq!(
        ws.container_for_window(2).map(|c| c.windows().iter().copied().collect::<Vec<_>>()),
        Some(vec![Window { hwnd: 2 }, Window { hwnd: 4 }])
    );
    assert!(ws.container_for_window(9).is_none());
    let full = full_workspace();
    assert_eq!(
        full.container_for_window(6).map(|c| c.windows().iter().copied().collect::<Vec<_>>()),
        Some(vec![Window { hwnd: 5 }, Window { hwnd: 6 }])
    );
    assert_eq!(
        full.container_for_window(6).map(|c| c.id().clone()),
        full.monocle_container().as_ref().map(|c| c.id().clone())
    );
    assert!(full.container_for_window(4).is_none());
    assert!(full.container_for_window(7).is_none());
    let mut both = workspace_of(&[&[1], &[5]]);
    both.set_monocle_container(Some(container_of(&[5, 6])));
    assert_eq!(
        both.container_for_window(5).map(|c| c.id().clone()),
        Some(both.containers()[1].id().clone())
    );
    assert_eq!(both.container_idx_for_window(6), None);
}

#[test]
fn hwnd_from_exe_searches_tiled_then_maximized_then_monocle_then_floating() {
    let ws = full_workspace();
    let everywhere: Vec<WindowExe> = (1..=8).rev().map(|hwnd| exe(hwnd, "app.exe")).collect();
    assert_eq!(ws.hwnd_from_exe("app.exe", &everywhere), Some(1));
    let from_second_container: Vec<WindowExe> = (3..=8).map(|hwnd| exe(hwnd, "app.exe")).collect();
    assert_eq!(ws.hwnd_from_exe("app.exe", &from_second_container), Some(3));
    let from_maximized: Vec<WindowExe> = (4..=8).rev().map(|hwnd| exe(hwnd, "app.exe")).collect();
    assert_eq!(ws.hwnd_from_exe("app.exe", &from_maximized), Some(4));
    let from_monocle: Vec<WindowExe> = (5..=8).rev().map(|hwnd| exe(hwnd, "app.exe")).collect();
    assert_eq!(ws.hwnd_from_exe("app.exe", &from_monocle), Some(5));
    let from_floating: Vec<WindowExe> = (7..=8).rev().map(|hwnd| exe(hwnd, "app.exe")).collect();
    assert_eq!(ws.hwnd_from_exe("app.exe", &from_floating), Some(7));
    assert_eq!(ws.hwnd_from_exe("other.exe", &everywhere), None);
    assert_eq!(ws.hwnd_from_exe("app.exe", &Vec::new()), None);
}

#[test]
fn hwnd_from_exe_tells_executables_apart() {
    let ws = full_workspace();
    let reports = vec![exe(1, "a.exe"), exe(2, "b.exe"), exe(8, "c.exe"), exe(6, "c.exe")];
    assert_eq!(ws.hwnd_from_exe("b.exe", &reports), Some(2));
    assert_eq!(ws.hwnd_from_exe("c.exe", &reports), Some(6));
    assert_eq!(ws.hwnd_from_exe("", &reports), None);
}

#[test]
fn container_idx_from_current_point_gives_the_last_slot_that_contains_the_point() {
    let mut ws = workspace_of(&[&[1], &[2], &[3]]);
    ws.set_latest_layout(vec![
        Rect { left: 0, top: 0, right: 100, bottom: 100 },
        Rect { left: 100, top: 0, right: 100, bottom: 100 },
        Rect { left: 50, top: 50, right: 10, bottom: 10 },
    ]);
    assert_eq!(ws.container_idx_from_current_point((10, 10)), Some(0));
    assert_eq!(ws.container_idx_from_current_point((150, 20)), Some(1));
    assert_eq!(ws.container_idx_from_current_point((100, 0)), Some(1));
    assert_eq!(ws.container_idx_from_current_point((55, 55)), Some(2));
    assert_eq!(ws.container_idx_from_current_point((300, 300)), None);
    assert_eq!(ws.container_idx_from_current_point((-1, 0)), None);
}

#[test]
fn container_idx_from_current_point_looks_at_tiled_slots_only() {
    let mut ws = workspace_of(&[&[1]]);
    ws.set_latest_layout(vec![
        Rect { left: 0, top: 0, right: 10, bottom: 10 },
        Rect { left: 20, top: 20, right: 10, bottom: 10 },
    ]);
    assert_eq!(ws.container_idx_from_current_point((5, 5)), Some(0));
    assert_eq!(ws.container_idx_from_current_point((25, 25)), None);
    let mut short = workspace_of(&[&[1], &[2]]);
    short.set_latest_layout(vec![Rect { left: 0, top: 0, right: 10, bottom: 10 }]);
    assert_eq!(short.container_idx_from_current_point((5, 5)), Some(0));
    assert_eq!(Workspace::default().container_idx_from_current_point((0, 0)), None);
}

#[test]
fn rect_contains_point_includes_its_borders() {
    let rect = Rect { left: 10, top: 20, right: 30, bottom: 40 };
    assert!(rect.contains_point((10, 20)));
    assert!(rect.contains_point((40, 60)));
    assert!(rect.contains_point((25, 30)));
    assert!(!rect.contains_point((9, 20)));
    assert!(!rect.contains_point((41, 60)));
    assert!(!rect.contains_point((10, 19)));
    assert!(!rect.contains_point((40, 61)));
    let wide = Rect { left: i32::MAX, top: i32::MAX, right: i32::MAX, bottom: i32::MAX };
    assert!(wide.contains_point((i32::MAX, i32::MAX)));
    assert!(!wide.contains_point((0, 0)));
    assert_eq!(Rect::default(), Rect { left: 0, top: 0, right: 0, bottom: 0 });
}

#[test]
fn visible_windows_gives_the_focused_window_of_each_container() {
    let mut ws = workspace_of(&[&[1, 2], &[3]]);
    ws.add_container(Container::new());
    assert_eq!(
        ws.visible_windows(),
        vec![Some(&Window { hwnd: 2 }), Some(&Window { hwnd: 3 }), None]
    );
    assert_eq!(Workspace::default().visible_windows(), Vec::<Option<&Window>>::new());
}

#[test]
fn cycle_direction_next_wraps_round() {
    let mut single = workspace_of(&[&[1]]);
    assert_eq!(single.new_idx_for_cycle_direction(CycleDirection::Next), Some(0));
    assert_eq!(single.new_idx_for_cycle_direction(CycleDirection::Previous), Some(0));
    single.remove_container(0);
    assert_eq!(single.new_idx_for_cycle_direction(CycleDirection::Next), None);
    let mut ws = workspace_of(&[&[1], &[2], &[3]]);
    assert_eq!(ws.focused_container_idx(), 2);
    assert_eq!(ws.new_idx_for_cycle_direction(CycleDirection::Next), Some(0));
    assert_eq!(ws.new_idx_for_cycle_direction(CycleDirection::Previous), Some(1));
    ws.focus_container(0);
    assert_eq!(ws.new_idx_for_cycle_direction(CycleDirection::Next), Some(1));
    assert_eq!(ws.new_idx_for_cycle_direction(CycleDirection::Previous), Some(2));
}

#[test]
fn cycle_direction_next_idx_is_modular() {
    assert_eq!(CycleDirection::Next.next_idx(0, 1), 0);
    assert_eq!(CycleDirection::Previous.next_idx(0, 1), 0);
    assert_eq!(CycleDirection::Next.next_idx(2, 3), 0);
    assert_eq!(CycleDirection::Next.next_idx(1, 3), 2);
    assert_eq!(CycleDirection::Previous.next_idx(0, 3), 2);
    assert_eq!(CycleDirection::Previous.next_idx(2, 3), 1);
    for len in 1..6usize {
        for idx in 0..len {
            assert_eq!(CycleDirection::Next.next_idx(idx, len), (idx + 1) % len);
            assert_eq!(CycleDirection::Previous.next_idx(idx, len), (idx + len - 1) % len);
        }
    }
}

#[test]
fn new_idx_for_direction_asks_the_layout_strategy() {
    let mut ws = workspace_of(&[&[1], &[2], &[3]]);
    ws.set_layout_flip(Some(Axis::Vertical));
    ws.focus_container(1);
    let strategy = |layout: Layout,
                    flip: Option<Axis>,
                    direction: OperationDirection,
                    idx: usize,
                    len: usize| {
        assert_eq!(layout, Layout::Default(DefaultLayout::BSP));
        assert_eq!(flip, Some(Axis::Vertical));
        assert_eq!((idx, len), (1, 3));
        match direction {
            OperationDirection::Left => Some(idx - 1),
            OperationDirection::Right => Some(idx + 1),
            _ => None,
        }
    };
    assert_eq!(ws.new_idx_for_direction(OperationDirection::Left, strategy), Some(0));
    assert_eq!(ws.new_idx_for_direction(OperationDirection::Right, strategy), Some(2));
    assert_eq!(ws.new_idx_for_direction(OperationDirection::Up, strategy), None);
}

#[test]
fn new_idx_for_direction_does_not_ask_for_an_empty_ring() {
    let ws = Workspace::default();
    let strategy = |_: Layout, _: Option<Axis>, _: OperationDirection, _: usize, _: usize| {
        panic!("an empty ring has no direction to go");
    };
    assert_eq!(ws.new_idx_for_direction(OperationDirection::Down, strategy), None);
}

#[test]
fn layout_primary_slot_index() {
    assert_eq!(Layout::Default(DefaultLayout::BSP).primary_slot_index(), Some(0));
    assert_eq!(Layout::Default(DefaultLayout::UltrawideVerticalStack).primary_slot_index(), Some(0));
    assert_eq!(Layout::Custom(CustomLayout { primary_slot: Some(2) }).primary_slot_index(), Some(2));
    assert_eq!(Layout::Custom(CustomLayout { primary_slot: None }).primary_slot_index(), None);
}

#[test]
fn hide_windows_hides_every_window_in_search_order() {
    let ws = full_workspace();
    let expected: Vec<PlatformCommand> = (1..=8).map(PlatformCommand::Hide).collect();
    assert_eq!(ws.hide_windows(), expected);
    assert_eq!(Workspace::default().hide_windows(), Vec::new());
}

#[test]
fn restore_shows_the_workspace_again() {
    let mut ws = workspace_of(&[&[1, 2], &[3]]);
    ws.add_container(Container::new());
    ws.set_monocle_container(Some(container_of(&[5, 6])));
    ws.floating_windows_mut().push(Window { hwnd: 7 });
    ws.focus_container(0);
    assert_eq!(
        ws.restore(true),
        vec![
            PlatformCommand::Restore(2),
            PlatformCommand::Restore(3),
            PlatformCommand::Restore(5),
            PlatformCommand::Restore(6),
            PlatformCommand::Restore(7),
            PlatformCommand::Focus(2, true),
        ]
    );
    ws.focus_container(2);
    assert_eq!(ws.restore(false).last(), Some(&PlatformCommand::Restore(7)));
}

#[test]
fn restore_does_not_focus_under_a_maximized_window() {
    let mut ws = workspace_of(&[&[1], &[2]]);
    ws.set_maximized_window(Some(Window { hwnd: 4 }));
    assert_eq!(
        ws.restore(false),
        vec![
            PlatformCommand::Restore(1),
            PlatformCommand::Restore(2),
            PlatformCommand::Maximize(4),
        ]
    );
    ws.set_maximized_window(None);
    assert_eq!(
        ws.restore(false),
        vec![
            PlatformCommand::Restore(1),
            PlatformCommand::Restore(2),
            PlatformCommand::Focus(2, false),
        ]
    );
}

#[test]
fn load_static_config_with_a_built_in_layout() {
    let mut ws = workspace_of(&[&[1]]);
    ws.set_layout_rules(vec![(9, Layout::Default(DefaultLayout::BSP))]);
    let config = WorkspaceConfig {
        name: "main".to_string(),
        container_padding: Some(4),
        workspace_padding: None,
        layout: Some(DefaultLayout::Rows),
        custom_layout: None,
        layout_rules: Some(vec![(2, DefaultLayout::Columns), (5, DefaultLayout::BSP)]),
        custom_layout_rules: Some(vec![(7, CustomLayout { primary_slot: Some(1) })]),
    };
    ws.load_static_config(&config);
    assert_eq!(ws.name(), &Some("main".to_string()));
    assert!(!ws.is_poker_workspace());
    assert_eq!(ws.container_padding(), Some(4));
    assert_eq!(ws.workspace_padding(), Some(10));
    assert_eq!(ws.layout(), &Layout::Default(DefaultLayout::Rows));
    assert_eq!(ws.tile(), &true);
    assert_eq!(
        ws.layout_rules(),
        &vec![
            (2, Layout::Default(DefaultLayout::Columns)),
            (5, Layout::Default(DefaultLayout::BSP)),
            (7, Layout::Custom(CustomLayout { primary_slot: Some(1) })),
        ]
    );
    assert_eq!(ws.containers().len(), 1);
}

#[test]
fn load_static_config_prefers_the_custom_layout() {
    let mut ws = Workspace::default();
    ws.set_layout_rules(vec![(9, Layout::Default(DefaultLayout::BSP))]);
    let config = WorkspaceConfig {
        name: "POKER".to_string(),
        container_padding: None,
        workspace_padding: Some(0),
        layout: Some(DefaultLayout::Rows),
        custom_layout: Some(CustomLayout { primary_slot: None }),
        layout_rules: None,
        custom_layout_rules: Some(vec![(3, CustomLayout { primary_slot: Some(0) })]),
    };
    ws.load_static_config(&config);
    assert!(ws.is_poker_workspace());
    assert_eq!(ws.workspace_padding(), Some(0));
    assert_eq!(ws.container_padding(), Some(10));
    assert_eq!(ws.layout(), &Layout::Custom(CustomLayout { primary_slot: None }));
    assert_eq!(ws.tile(), &true);
    assert_eq!(
        ws.layout_rules(),
        &vec![
            (9, Layout::Default(DefaultLayout::BSP)),
            (3, Layout::Custom(CustomLayout { primary_slot: Some(0) })),
        ]
    );
}

#[test]
fn load_static_config_without_a_layout_stops_tiling() {
    let mut ws = Workspace::default();
    ws.set_layout(Layout::Default(DefaultLayout::Columns));
    let config = WorkspaceConfig {
        name: "poker".to_string(),
        container_padding: None,
        workspace_padding: None,
        layout: None,
        custom_layout: None,
        layout_rules: None,
        custom_layout_rules: None,
    };
    ws.load_static_config(&config);
    assert_eq!(ws.name(), &Some("poker".to_string()));
    assert!(!ws.is_poker_workspace());
    assert_eq!(ws.tile(), &false);
    assert_eq!(ws.layout(), &Layout::Default(DefaultLayout::Columns));
    assert!(ws.layout_rules().is_empty());
}

#[test]
fn clone_keeps_the_whole_workspace() {
    let mut ws = full_workspace();
    ws.set_name(Some("main".to_string()));
    ws.set_resize_dimensions(vec![None, Some(Rect { left: 1, top: 2, right: 3, bottom: 4 })]);
    ws.set_monocle_container_restore_idx(Some(1));
    ws.focus_container(0);
    let copy = ws.clone();
    assert_eq!(copy.name(), ws.name());
    assert_eq!(copy.focused_container_idx(), 0);
    assert_eq!(copy.containers().len(), 2);
    for (a, b) in copy.containers().iter().zip(ws.containers().iter()) {
        assert_eq!(a.id(), b.id());
        assert_eq!(a.windows(), b.windows());
        assert_eq!(a.focused_window_idx(), b.focused_window_idx());
    }
    assert_eq!(copy.maximized_window(), ws.maximized_window());
    assert_eq!(copy.floating_windows(), ws.floating_windows());
    assert_eq!(copy.resize_dimensions(), ws.resize_dimensions());
    assert_eq!(copy.monocle_container_restore_idx(), Some(1));
    assert_eq!(
        copy.monocle_container().as_ref().map(|c| c.windows().clone()),
        ws.monocle_container().as_ref().map(|c| c.windows().clone())
    );
    assert_eq!(copy.hide_windows(), ws.hide_windows());
}

#[test]
fn workspaces_built_through_their_operations_are_well_formed() {
    let mut ws = full_workspace();
    assert!(ws.is_well_formed());
    assert!(ws.new_floating_window().is_ok());
    assert!(ws.remove_window(1).is_ok());
    assert!(ws.remove_window(2).is_ok());
    assert!(ws.is_well_formed());
    assert!(Workspace::default().is_well_formed());
}
