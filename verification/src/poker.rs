//! The seating chart of a poker workspace: fixed rows of tables, filled from
//! the left in the order of the tiled containers.
use vstd::prelude::*;
use std::collections::VecDeque;
use crate::container::Container;
use crate::container::ContainerView;
use crate::container::container_views;
use crate::rect::Rect;
use crate::window::handle_listed;
use crate::window::PlatformCommand;

verus! {

/// The width of the border round the active window, which separates the
/// tables of a row and the rows.
pub const BORDER_WIDTH: i32 = 5;

/// How far the short last row of three or of five tables is moved to the
/// right, to centre it.
pub const CENTRE_SHIFT: i32 = 325;

/// How far the third row is moved up.
pub const THIRD_ROW_RAISE: i32 = 50;

/// One kind of table: the size it is given, and the handles of the visible
/// windows that were recognised as tables of this kind.
#[derive(Debug)]
pub struct PokerWindow {
    pub matched: Vec<isize>,
    pub width: i32,
    pub height: i32,
}

/// The seating chart: where the first table stands, and the kinds of
/// tables.
#[derive(Debug)]
pub struct PokerConfig {
    pub at_left: i32,
    pub at_top: i32,
    pub windows: Vec<PokerWindow>,
}

/// Where the next table goes: the row that is being filled, and the left and
/// top of the next free place in it. Row zero is no row yet.
#[derive(Clone, Copy, Debug, PartialEq, Eq, Structural)]
pub struct PokerCursor {
    pub row: i32,
    pub left: i32,
    pub top: i32,
}

/// A table that was seated: its rectangle, and the cursor behind it.
pub struct Seated {
    pub cursor: PokerCursor,
    pub rect: Rect,
}

/// The tables seated so far: the cursor, and the commands that position
/// them.
pub struct PokerPass {
    pub cursor: PokerCursor,
    pub commands: Seq<PlatformCommand>,
}

/// Whether the number is a coordinate, that is, fits in 32 bits.
pub open spec fn fits(x: int) -> bool {
    i32::MIN <= x <= i32::MAX
}

/// The row of the table at `index` among `count` tables: rows of two up to
/// six tables, rows of three beyond. An index past the chart is seated in
/// the first row.
pub open spec fn spec_poker_row(count: nat, index: nat) -> i32 {
    if count <= 6 {
        if index <= 1 {
            1
        } else if index <= 3 {
            2
        } else if index <= 5 {
            3
        } else if index <= 7 {
            4
        } else {
            1
        }
    } else {
        if index <= 2 {
            1
        } else if index <= 5 {
            2
        } else if index <= 8 {
            3
        } else {
            1
        }
    }
}

/// The left of the first place of `row`: that of the chart, moved to the
/// right for the short last row of three or of five tables.
pub open spec fn row_left(at_left: i32, count: nat, row: i32) -> int {
    if (count == 3 && row == 2) || (count == 5 && row == 3) {
        at_left + CENTRE_SHIFT
    } else {
        at_left as int
    }
}

/// The top of `row` for tables of the given height: one table and one border
/// further down for each row before it, the third row moved up.
pub open spec fn row_top(at_top: i32, row: i32, height: i32) -> int {
    at_top + (height + BORDER_WIDTH) * (row - 1) - if row == 3 {
        THIRD_ROW_RAISE as int
    } else {
        0
    }
}

/// Seats one table of the given size: in the row that is being filled if
/// that is its row, else at the start of its row. None where a coordinate
/// does not fit in 32 bits.
pub open spec fn seat(
    cursor: PokerCursor,
    at_left: i32,
    at_top: i32,
    count: nat,
    index: nat,
    width: i32,
    height: i32,
) -> Option<Seated> {
    let row = spec_poker_row(count, index);
    let left = if cursor.row == row {
        cursor.left as int
    } else {
        row_left(at_left, count, row)
    };
    let top = if cursor.row == row {
        cursor.top as int
    } else {
        row_top(at_top, row, height)
    };
    if fits(left) && fits(top) && fits(top + BORDER_WIDTH) && fits(left + width + BORDER_WIDTH) {
        Some(
            Seated {
                rect: Rect {
                    left: left as i32,
                    top: (top + BORDER_WIDTH) as i32,
                    right: width,
                    bottom: height,
                },
                cursor: PokerCursor {
                    row,
                    left: (left + width + BORDER_WIDTH) as i32,
                    top: top as i32,
                },
            },
        )
    } else {
        None
    }
}

/// Seats the window `hwnd`, which is shown by the container at `index`, once
/// for each kind of table that it was recognised as, in the order of the
/// kinds.
pub open spec fn seat_window(
    start: PokerPass,
    kinds: Seq<PokerWindow>,
    hwnd: isize,
    index: nat,
    count: nat,
    at_left: i32,
    at_top: i32,
) -> Option<PokerPass>
    decreases kinds.len(),
{
    if kinds.len() == 0 {
        Some(start)
    } else {
        match seat_window(start, kinds.drop_last(), hwnd, index, count, at_left, at_top) {
            None => None,
            Some(before) => if kinds.last().matched@.contains(hwnd) {
                match seat(
                    before.cursor,
                    at_left,
                    at_top,
                    count,
                    index,
                    kinds.last().width,
                    kinds.last().height,
                ) {
                    None => None,
                    Some(seated) => Some(
                        PokerPass {
                            cursor: seated.cursor,
                            commands: before.commands.push(
                                PlatformCommand::SetPosition(hwnd, seated.rect, true),
                            ),
                        },
                    ),
                }
            } else {
                Some(before)
            },
        }
    }
}

/// Seats the visible window of each of the containers, in display order,
/// among `count` tables.
pub open spec fn seat_containers(
    containers: Seq<ContainerView>,
    count: nat,
    poker: PokerConfig,
) -> Option<PokerPass>
    decreases containers.len(),
{
    if containers.len() == 0 {
        Some(
            PokerPass {
                cursor: PokerCursor { row: 0, left: poker.at_left, top: poker.at_top },
                commands: Seq::empty(),
            },
        )
    } else {
        match seat_containers(containers.drop_last(), count, poker) {
            None => None,
            Some(before) => match containers.last().focused_window() {
                None => Some(before),
                Some(w) => seat_window(
                    before,
                    poker.windows@,
                    w.hwnd,
                    (containers.len() - 1) as nat,
                    count,
                    poker.at_left,
                    poker.at_top,
                ),
            },
        }
    }
}

/// The row of the table at `index` among `count` tables.
pub fn poker_row(count: usize, index: usize) -> (row: i32)
    ensures
        row == spec_poker_row(count as nat, index as nat),
        1 <= row <= 4,
{
    if count <= 6 {
        if index <= 1 {
            1
        } else if index <= 3 {
            2
        } else if index <= 5 {
            3
        } else if index <= 7 {
            4
        } else {
            1
        }
    } else {
        if index <= 2 {
            1
        } else if index <= 5 {
            2
        } else if index <= 8 {
            3
        } else {
            1
        }
    }
}

/// The number as a coordinate, if it fits in 32 bits.
fn coordinate(x: i64) -> (r: Option<i32>)
    ensures
        r.is_some() == fits(x as int),
        r matches Some(c) ==> c == x,
{
    if x >= -2147483648 && x <= 2147483647 {
        Some(x as i32)
    } else {
        None
    }
}

/// Seats one table of the given size behind the cursor.
pub fn seat_table(
    cursor: PokerCursor,
    at_left: i32,
    at_top: i32,
    count: usize,
    index: usize,
    width: i32,
    height: i32,
) -> (r: Option<(PokerCursor, Rect)>)
    ensures
        match r {
            Some(seated) => seat(
                cursor,
                at_left,
                at_top,
                count as nat,
                index as nat,
                width,
                height,
            ) == Some(Seated { cursor: seated.0, rect: seated.1 }),
            None => seat(cursor, at_left, at_top, count as nat, index as nat, width, height).is_none(),
        },
{
    let row = poker_row(count, index);
    let (left, top): (i64, i64) = if cursor.row == row {
        (cursor.left as i64, cursor.top as i64)
    } else {
        let shift: i64 = if (count == 3 && row == 2) || (count == 5 && row == 3) {
            CENTRE_SHIFT as i64
        } else {
            0
        };
        let step: i64 = height as i64 + BORDER_WIDTH as i64;
        let down: i64 = if row == 1 {
            0
        } else if row == 2 {
            step
        } else if row == 3 {
            step + step
        } else {
            step + step + step
        };
        let raise: i64 = if row == 3 {
            THIRD_ROW_RAISE as i64
        } else {
            0
        };
        assert(down == (height + BORDER_WIDTH) * (row - 1)) by (nonlinear_arith)
            requires
                step == height + BORDER_WIDTH,
                1 <= row <= 4,
                down == if row == 1 {
                    0
                } else if row == 2 {
                    step as int
                } else if row == 3 {
                    step + step
                } else {
                    step + step + step
                },
        ;
        (at_left as i64 + shift, at_top as i64 + down - raise)
    };
    let rect_left = coordinate(left);
    let cursor_top = coordinate(top);
    let rect_top = coordinate(top + BORDER_WIDTH as i64);
    let next_left = coordinate(left + width as i64 + BORDER_WIDTH as i64);
    match (rect_left, cursor_top, rect_top, next_left) {
        (Some(rect_left), Some(cursor_top), Some(rect_top), Some(next_left)) => Some(
            (
                PokerCursor { row, left: next_left, top: cursor_top },
                Rect { left: rect_left, top: rect_top, right: width, bottom: height },
            ),
        ),
        _ => None,
    }
}

/// Seats the window `hwnd`, which is shown by the container at `index`, once
/// for each kind of table that it was recognised as. Returns the cursor
/// behind it and appends the commands that position it; none where a
/// coordinate does not fit in 32 bits.
pub fn seat_visible_window(
    cursor: PokerCursor,
    commands: &mut Vec<PlatformCommand>,
    poker: &PokerConfig,
    hwnd: isize,
    index: usize,
    count: usize,
) -> (r: Option<PokerCursor>)
    ensures
        match r {
            Some(next) => seat_window(
                PokerPass { cursor, commands: old(commands)@ },
                poker.windows@,
                hwnd,
                index as nat,
                count as nat,
                poker.at_left,
                poker.at_top,
            ) == Some(PokerPass { cursor: next, commands: final(commands)@ }),
            None => seat_window(
                PokerPass { cursor, commands: old(commands)@ },
                poker.windows@,
                hwnd,
                index as nat,
                count as nat,
                poker.at_left,
                poker.at_top,
            ).is_none(),
        },
{
    let ghost start = PokerPass { cursor, commands: commands@ };
    let mut at = cursor;
    let mut k: usize = 0;
    while k < poker.windows.len()
        invariant
            k <= poker.windows.len(),
            seat_window(
                start,
                poker.windows@.take(k as int),
                hwnd,
                index as nat,
                count as nat,
                poker.at_left,
                poker.at_top,
            ) == Some(PokerPass { cursor: at, commands: commands@ }),
            start == (PokerPass { cursor, commands: old(commands)@ }),
        decreases poker.windows.len() - k,
    {
        let kind = &poker.windows[k];
        proof {
            let next = poker.windows@.take(k as int + 1);
            assert(next.drop_last() =~= poker.windows@.take(k as int));
            assert(next.last() == poker.windows@[k as int]);
        }
        if handle_listed(&kind.matched, hwnd) {
            match seat_table(at, poker.at_left, poker.at_top, count, index, kind.width, kind.height) {
                Some((next, rect)) => {
                    at = next;
                    commands.push(PlatformCommand::SetPosition(hwnd, rect, true));
                },
                None => {
                    proof {
                        lemma_seat_window_fails(
                            start,
                            poker.windows@,
                            k as int + 1,
                            hwnd,
                            index as nat,
                            count as nat,
                            poker.at_left,
                            poker.at_top,
                        );
                    }
                    return None;
                },
            }
        }
        k = k + 1;
    }
    assert(poker.windows@.take(k as int) =~= poker.windows@);
    Some(at)
}

/// Seating that fails for the first kinds of tables fails for all of them.
pub proof fn lemma_seat_window_fails(
    start: PokerPass,
    kinds: Seq<PokerWindow>,
    k: int,
    hwnd: isize,
    index: nat,
    count: nat,
    at_left: i32,
    at_top: i32,
)
    requires
        0 <= k <= kinds.len(),
        seat_window(start, kinds.take(k), hwnd, index, count, at_left, at_top).is_none(),
    ensures
        seat_window(start, kinds, hwnd, index, count, at_left, at_top).is_none(),
    decreases kinds.len() - k,
{
    if k < kinds.len() {
        assert(kinds.take(k + 1).drop_last() =~= kinds.take(k));
        lemma_seat_window_fails(start, kinds, k + 1, hwnd, index, count, at_left, at_top);
    } else {
        assert(kinds.take(k) =~= kinds);
    }
}

/// Seating that fails for the first containers fails for all of them.
pub proof fn lemma_seat_containers_fails(
    containers: Seq<ContainerView>,
    i: int,
    count: nat,
    poker: PokerConfig,
)
    requires
        0 <= i <= containers.len(),
        seat_containers(containers.take(i), count, poker).is_none(),
    ensures
        seat_containers(containers, count, poker).is_none(),
    decreases containers.len() - i,
{
    if i < containers.len() {
        assert(containers.take(i + 1).drop_last() =~= containers.take(i));
        lemma_seat_containers_fails(containers, i + 1, count, poker);
    } else {
        assert(containers.take(i) =~= containers);
    }
}

/// The commands that seat the visible window of each of `containers`; none
/// where a coordinate does not fit in 32 bits.
pub fn seat_visible_windows(containers: &VecDeque<Container>, poker: &PokerConfig) -> (r: Option<
    Vec<PlatformCommand>,
>)
    ensures
        match r {
            Some(commands) => seat_containers(
                container_views(containers@),
                containers@.len(),
                *poker,
            ) matches Some(pass) && pass.commands == commands@,
            None => seat_containers(container_views(containers@), containers@.len(), *poker).is_none(),
        },
{
    let ghost views = container_views(containers@);
    let count = containers.len();
    let mut commands: Vec<PlatformCommand> = Vec::new();
    let mut cursor = PokerCursor { row: 0, left: poker.at_left, top: poker.at_top };
    let mut i: usize = 0;
    while i < count
        invariant
            i <= count,
            count == containers@.len(),
            views == container_views(containers@),
            seat_containers(views.take(i as int), count as nat, *poker) == Some(
                PokerPass { cursor, commands: commands@ },
            ),
        decreases count - i,
    {
        proof {
            let next = views.take(i as int + 1);
            assert(next.drop_last() =~= views.take(i as int));
            assert(next.last() == views[i as int]);
        }
        if let Some(window) = containers[i].focused_window() {
            match seat_visible_window(cursor, &mut commands, poker, window.hwnd, i, count) {
                Some(next) => {
                    cursor = next;
                },
                None => {
                    proof {
                        lemma_seat_containers_fails(views, i as int + 1, count as nat, *poker);
                    }
                    return None;
                },
            }
        }
        i = i + 1;
    }
    assert(views.take(i as int) =~= views);
    Some(commands)
}

} // verus!
