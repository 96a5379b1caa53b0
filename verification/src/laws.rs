//! What holds of every workspace across its operations: every handle stays
//! in exactly one place, the rings keep their focus invariant, the size
//! overrides stay as many as the tiled containers, and no container stays
//! behind without windows.
use vstd::prelude::*;
use crate::container::ContainerView;
use crate::counting::lemma_occurrences_positive;
use crate::counting::lemma_occurrences_remove;
use crate::counting::lemma_tiled_positive;
use crate::counting::one_if;
use crate::model::is_last_container_with;
use crate::model::last_container_with;
use crate::model::occurrences;
use crate::model::tiled_contains;
use crate::model::WorkspaceView;
use crate::window::first_idx_of;
use crate::window::has_handle;
use crate::window::is_first_idx_of;
use crate::window::is_last_idx_of;
use crate::window::last_idx_of;
use crate::window::Window;

pub mod placement;
pub mod reaping;
pub mod round_trip;

verus! {

/// A handle stands somewhere in the workspace exactly when it is counted.
pub proof fn lemma_contains_window_iff_counted(ws: WorkspaceView, hwnd: isize)
    ensures
        ws.contains_window(hwnd) <==> ws.occurrences(hwnd) > 0,
{
    lemma_tiled_positive(ws.containers, hwnd);
    lemma_occurrences_positive(ws.floating_windows, hwnd);
    if let Some(c) = ws.monocle_container {
        lemma_occurrences_positive(c.windows, hwnd);
    }
}

/// The window that a container shows is one of its windows, and a container
/// that gives it up keeps its focus invariant.
pub proof fn lemma_remove_focused_window(c: ContainerView, hwnd: isize)
    requires
        c.wf(),
        c.focused_window().is_some(),
    ensures
        c.remove_focused_window().wf(),
        occurrences(c.windows, hwnd) == occurrences(c.remove_focused_window().windows, hwnd)
            + one_if(c.windows[c.focused as int], hwnd),
{
    lemma_occurrences_remove(c.windows, c.focused as int, hwnd);
}

/// A handle that some window has occurs at a last index.
pub proof fn lemma_last_idx_exists(windows: Seq<Window>, hwnd: isize)
    requires
        has_handle(windows, hwnd),
    ensures
        is_last_idx_of(windows, hwnd, last_idx_of(windows, hwnd)),
    decreases windows.len(),
{
    let i = choose|i: int| 0 <= i < windows.len() && (#[trigger] windows[i]).hwnd == hwnd;
    if windows.last().hwnd == hwnd {
        assert(is_last_idx_of(windows, hwnd, windows.len() - 1));
    } else {
        let front = windows.drop_last();
        assert(front[i].hwnd == hwnd);
        lemma_last_idx_exists(front, hwnd);
        let k = last_idx_of(front, hwnd);
        assert(windows[k] == front[k]);
        assert forall|j: int| k < j < windows.len() implies (#[trigger] windows[j]).hwnd != hwnd by {
            if j < front.len() {
                assert(front[j].hwnd != hwnd);
            }
        }
        assert(is_last_idx_of(windows, hwnd, k));
    }
}

/// A handle that some window has occurs at a first index.
pub proof fn lemma_first_idx_exists(windows: Seq<Window>, hwnd: isize)
    requires
        has_handle(windows, hwnd),
    ensures
        is_first_idx_of(windows, hwnd, first_idx_of(windows, hwnd)),
    decreases windows.len(),
{
    let i = choose|i: int| 0 <= i < windows.len() && (#[trigger] windows[i]).hwnd == hwnd;
    let front = windows.drop_last();
    if exists|j: int| 0 <= j < front.len() && (#[trigger] front[j]).hwnd == hwnd {
        lemma_first_idx_exists(front, hwnd);
        let k = first_idx_of(front, hwnd);
        assert(windows[k] == front[k]);
        assert forall|j: int| 0 <= j < k implies (#[trigger] windows[j]).hwnd != hwnd by {
            assert(front[j].hwnd != hwnd);
        }
        assert(is_first_idx_of(windows, hwnd, k));
    } else {
        assert forall|j: int| 0 <= j < windows.len() - 1 implies (#[trigger] windows[j]).hwnd
            != hwnd by {
            assert(front[j] == windows[j]);
        }
        assert(i == windows.len() - 1);
        assert(is_first_idx_of(windows, hwnd, windows.len() - 1));
    }
}

/// A handle that some container holds is held by a last container.
pub proof fn lemma_last_container_exists(containers: Seq<ContainerView>, hwnd: isize)
    requires
        tiled_contains(containers, hwnd),
    ensures
        is_last_container_with(containers, hwnd, last_container_with(containers, hwnd)),
    decreases containers.len(),
{
    let i = choose|i: int|
        0 <= i < containers.len() && has_handle((#[trigger] containers[i]).windows, hwnd);
    if has_handle(containers.last().windows, hwnd) {
        assert(is_last_container_with(containers, hwnd, containers.len() - 1));
    } else {
        let front = containers.drop_last();
        assert(has_handle(front[i].windows, hwnd));
        lemma_last_container_exists(front, hwnd);
        let k = last_container_with(front, hwnd);
        assert(containers[k] == front[k]);
        assert forall|j: int| k < j < containers.len() implies !has_handle(
            (#[trigger] containers[j]).windows,
            hwnd,
        ) by {
            if j < front.len() {
                assert(!has_handle(front[j].windows, hwnd));
            }
        }
        assert(is_last_container_with(containers, hwnd, k));
    }
}

} // verus!
