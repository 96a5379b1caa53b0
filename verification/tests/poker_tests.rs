use komorebi::container::Container;
use komorebi::error::WorkspaceError;
use komorebi::poker::poker_row;
use komorebi::poker::seat_table;
use komorebi::poker::PokerConfig;
use komorebi::poker::PokerCursor;
use komorebi::poker::PokerWindow;
use komorebi::rect::Rect;
use komorebi::window::PlatformCommand;
use komorebi::window::Window;
use komorebi::workspace::Workspace;

fn poker_workspace(count: isize) -> Workspace {
    let mut ws = Workspace::default();
    for hwnd in 1..=count {
        let mut container = Container::new();
        container.add_window(Window { hwnd });
        ws.add_container(container);
    }
    ws.set_is_poker_workspace(true);
    ws
}

fn chart(matched: Vec<isize>) -> PokerConfig {
    PokerConfig {
        at_left: 100,
        at_top: 10,
        windows: vec![PokerWindow { matched, width: 640, height: 480 }],
    }
}

fn area() -> Rect {
    Rect { left: 0, top: 0, right: 1920, bottom: 1080 }
}

fn seat_command(hwnd: isize, left: i32, top: i32) -> PlatformCommand {
    PlatformCommand::SetPosition(hwnd, Rect { left, top, right: 640, bottom: 480 }, true)
}

#[test]
fn poker_rows_hold_two_tables_up_to_six_and_three_beyond() {
    let small: Vec<i32> = (0..9).map(|i| poker_row(6, i)).collect();
    assert_eq!(small, vec![1, 1, 2, 2, 3, 3, 4, 4, 1]);
    let large: Vec<i32> = (0..10).map(|i| poker_row(7, i)).collect();
    assert_eq!(large, vec![1, 1, 1, 2, 2, 2, 3, 3, 3, 1]);
    assert_eq!(poker_row(0, 0), 1);
    assert_eq!(poker_row(3, 2), 2);
}

#[test]
fn update_of_an_ordinary_workspace_asks_for_nothing() {
    let mut ws = poker_workspace(3);
    ws.set_is_poker_workspace(false);
    assert_eq!(ws.update(&area(), None, &chart(vec![1, 2, 3])), Ok(Vec::new()));
}

#[test]
fn update_seats_three_tables_with_the_last_one_centred() {
    let ws = poker_workspace(3);
    assert_eq!(
        ws.update(&area(), None, &chart(vec![1, 2, 3])),
        Ok(vec![
            seat_command(1, 100, 15),
            seat_command(2, 745, 15),
            seat_command(3, 425, 500),
        ])
    );
}

#[test]
fn update_seats_five_tables_in_three_rows() {
    let ws = poker_workspace(5);
    assert_eq!(
        ws.update(&area(), Some(area()), &chart(vec![1, 2, 3, 4, 5])),
        Ok(vec![
            seat_command(1, 100, 15),
            seat_command(2, 745, 15),
            seat_command(3, 100, 500),
            seat_command(4, 745, 500),
            seat_command(5, 425, 935),
        ])
    );
}

#[test]
fn update_seats_seven_tables_in_rows_of_three() {
    let ws = poker_workspace(7);
    assert_eq!(
        ws.update(&area(), None, &chart(vec![1, 2, 3, 4, 5, 6, 7])),
        Ok(vec![
            seat_command(1, 100, 15),
            seat_command(2, 745, 15),
            seat_command(3, 1390, 15),
            seat_command(4, 100, 500),
            seat_command(5, 745, 500),
            seat_command(6, 1390, 500),
            seat_command(7, 100, 935),
        ])
    );
}

#[test]
fn update_passes_over_windows_that_are_no_tables() {
    let ws = poker_workspace(4);
    assert_eq!(
        ws.update(&area(), None, &chart(vec![2, 4])),
        Ok(vec![seat_command(2, 100, 15), seat_command(4, 100, 500)])
    );
    assert_eq!(ws.update(&area(), None, &chart(Vec::new())), Ok(Vec::new()));
}

#[test]
fn update_seats_the_visible_window_of_a_stack_only() {
    let mut ws = Workspace::default();
    let mut stack = Container::new();
    stack.add_window(Window { hwnd: 1 });
    stack.add_window(Window { hwnd: 2 });
    ws.add_container(stack);
    ws.add_container(Container::new());
    ws.set_is_poker_workspace(true);
    assert_eq!(
        ws.update(&area(), None, &chart(vec![1, 2])),
        Ok(vec![seat_command(2, 100, 15)])
    );
}

#[test]
fn update_seats_a_window_once_for_each_kind_of_table_that_matches() {
    let ws = poker_workspace(1);
    let config = PokerConfig {
        at_left: 0,
        at_top: 0,
        windows: vec![
            PokerWindow { matched: vec![1], width: 10, height: 20 },
            PokerWindow { matched: vec![9], width: 11, height: 21 },
            PokerWindow { matched: vec![1], width: 30, height: 40 },
        ],
    };
    assert_eq!(
        ws.update(&area(), None, &config),
        Ok(vec![
            PlatformCommand::SetPosition(1, Rect { left: 0, top: 5, right: 10, bottom: 20 }, true),
            PlatformCommand::SetPosition(1, Rect { left: 15, top: 5, right: 30, bottom: 40 }, true),
        ])
    );
}

#[test]
fn update_fails_where_a_position_does_not_fit() {
    let ws = poker_workspace(3);
    let config = PokerConfig {
        at_left: i32::MAX - 700,
        at_top: 0,
        windows: vec![PokerWindow { matched: vec![1, 2, 3], width: 640, height: 480 }],
    };
    assert_eq!(ws.update(&area(), None, &config), Err(WorkspaceError::PositionOutOfRange));
    let tall = PokerConfig {
        at_left: 0,
        at_top: 0,
        windows: vec![PokerWindow { matched: vec![3], width: 640, height: i32::MAX }],
    };
    assert_eq!(ws.update(&area(), None, &tall), Err(WorkspaceError::PositionOutOfRange));
}

#[test]
fn seat_table_moves_the_cursor_along_the_row() {
    let start = PokerCursor { row: 0, left: 100, top: 10 };
    let first = seat_table(start, 100, 10, 3, 0, 640, 480);
    assert_eq!(
        first,
        Some((
            PokerCursor { row: 1, left: 745, top: 10 },
            Rect { left: 100, top: 15, right: 640, bottom: 480 }
        ))
    );
    let third_row = seat_table(PokerCursor { row: 2, left: 0, top: 0 }, 100, 10, 5, 4, 640, 480);
    assert_eq!(
        third_row,
        Some((
            PokerCursor { row: 3, left: 1070, top: 930 },
            Rect { left: 425, top: 935, right: 640, bottom: 480 }
        ))
    );
    assert_eq!(seat_table(start, i32::MAX, 10, 3, 2, 640, 480), None);
}
