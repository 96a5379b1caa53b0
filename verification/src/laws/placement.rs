//! What every transition of the placement state machine keeps: each handle
//! in as many places as before, the focus invariant of the rings, the size
//! overrides as many as the tiled containers, and no container without
//! windows.
use vstd::prelude::*;
use crate::window::lemma_first_idx_of;
use crate::window::is_first_idx_of;
use crate::model::lemma_last_container_with;
use crate::model::is_last_container_with;
use crate::model::Outcome;
use crate::error::WorkspaceError;
use crate::container::ContainerView;
use crate::counting::lemma_occurrences_positive;
use crate::counting::lemma_occurrences_push;
use crate::counting::lemma_occurrences_remove;
use crate::counting::lemma_occurrences_single;
use crate::counting::lemma_occurrences_without_handle;
use crate::counting::lemma_tiled_concat;
use crate::counting::lemma_tiled_empty_containers;
use crate::counting::lemma_tiled_insert;
use crate::counting::lemma_tiled_remove;
use crate::counting::lemma_tiled_update;
use crate::counting::one_if;
use crate::laws::lemma_contains_window_iff_counted;
use crate::laws::lemma_first_idx_exists;
use crate::laws::lemma_last_container_exists;
use crate::laws::lemma_last_idx_exists;
use crate::laws::lemma_remove_focused_window;
use crate::model::last_container_with;
use crate::model::occurrences;
use crate::model::WorkspaceView;
use crate::window::first_idx_of;
use crate::window::has_handle;
use crate::window::last_idx_of;
use crate::window::Window;

verus! {

/// Taking the focused window out of the focused container takes one place
/// from the handle of that window and none from any other. The rings keep
/// their focus invariant, the size overrides stay as many as the containers,
/// and no empty container stays behind.
pub proof fn lemma_release_focused_window(ws: WorkspaceView, hwnd: isize)
    requires
        ws.wf(),
        ws.focused_window_error().is_none(),
    ensures
        ws.release_focused_window().workspace.wf(),
        ws.occurrences(hwnd) == ws.release_focused_window().workspace.occurrences(hwnd) + one_if(
            ws.containers[ws.focused as int].windows[ws.containers[ws.focused as int].focused as int],
            hwnd,
        ),
        ws.aligned() ==> ws.release_focused_window().workspace.aligned(),
        ws.no_empty_containers() ==> ws.release_focused_window().workspace.no_empty_containers(),
{
    let f = ws.focused as int;
    let source = ws.containers[f];
    let rest = source.remove_focused_window();
    let after = ws.release_focused_window().workspace;
    lemma_remove_focused_window(source, hwnd);
    if rest.is_empty() {
        lemma_tiled_remove(ws.containers, f, hwnd);
        assert(occurrences(rest.windows, hwnd) == 0);
        assert forall|i: int| 0 <= i < after.containers.len() implies (
        #[trigger] after.containers[i]).wf() by {
            if i < f {
                assert(ws.containers[i].wf());
            } else {
                assert(ws.containers[i + 1].wf());
            }
        }
        if ws.no_empty_containers() {
            assert forall|i: int| 0 <= i < after.containers.len() implies !(
            #[trigger] after.containers[i]).is_empty() by {
                if i < f {
                    assert(!ws.containers[i].is_empty());
                } else {
                    assert(!ws.containers[i + 1].is_empty());
                }
            }
        }
    } else {
        lemma_tiled_update(ws.containers, f, rest, hwnd);
        assert forall|i: int| 0 <= i < after.containers.len() implies (
        #[trigger] after.containers[i]).wf() by {
            if i != f {
                assert(ws.containers[i].wf());
            }
        }
        if ws.no_empty_containers() {
            assert forall|i: int| 0 <= i < after.containers.len() implies !(
            #[trigger] after.containers[i]).is_empty() by {
                if i != f {
                    assert(!ws.containers[i].is_empty());
                }
            }
        }
    }
}

/// Taking the focused window out of the monocle container takes one place
/// from the handle of that window and none from any other, and leaves no
/// empty monocle container behind.
pub proof fn lemma_release_monocle_window(ws: WorkspaceView, hwnd: isize)
    requires
        ws.wf(),
        ws.monocle_container matches Some(c) && c.focused_window().is_some(),
    ensures
        ws.release_monocle_window().workspace.wf(),
        ws.occurrences(hwnd) == ws.release_monocle_window().workspace.occurrences(hwnd) + one_if(
            ws.monocle_container->0.windows[ws.monocle_container->0.focused as int],
            hwnd,
        ),
        ws.release_monocle_window().workspace.containers == ws.containers,
        ws.release_monocle_window().workspace.resize_dimensions == ws.resize_dimensions,
        ws.release_monocle_window().workspace.monocle_container matches Some(c) ==> !c.is_empty(),
{
    let c = ws.monocle_container->0;
    lemma_remove_focused_window(c, hwnd);
    let rest = c.remove_focused_window();
    if rest.is_empty() {
        assert(occurrences(rest.windows, hwnd) == 0);
    }
}

/// Moving a window to another container keeps every handle in as many
/// places as before. The rings keep their focus invariant, the size
/// overrides stay as many as the containers, and no empty container stays
/// behind.
pub proof fn lemma_move_window_to_container(ws: WorkspaceView, target: nat)
    requires
        ws.wf(),
        ws.move_window_to_container(target).is_ok(),
    ensures
        ws.move_window_to_container(target)->Ok_0.workspace.wf(),
        forall|hwnd: isize| #[trigger]
            ws.move_window_to_container(target)->Ok_0.workspace.occurrences(hwnd)
                == ws.occurrences(hwnd),
        ws.partitioned() ==> ws.move_window_to_container(target)->Ok_0.workspace.partitioned(),
        ws.aligned() ==> ws.move_window_to_container(target)->Ok_0.workspace.aligned(),
        ws.no_empty_containers() ==> ws.move_window_to_container(
            target,
        )->Ok_0.workspace.no_empty_containers(),
{
    let out = ws.move_window_to_container(target)->Ok_0.workspace;
    let source = ws.containers[ws.focused as int];
    let window = source.windows[source.focused as int];
    let released = ws.release_focused_window().workspace;
    let adjusted = out.focused;
    let destination = released.containers[adjusted as int].add_window(window);
    lemma_release_focused_window(ws, 0);
    assert(released.containers[adjusted as int].wf());
    assert forall|i: int| 0 <= i < out.containers.len() implies (#[trigger] out.containers[i]).wf() by {
        if i != adjusted {
            assert(released.containers[i].wf());
        }
    }
    assert forall|hwnd: isize| #[trigger] out.occurrences(hwnd) == ws.occurrences(hwnd) by {
        lemma_release_focused_window(ws, hwnd);
        lemma_tiled_update(released.containers, adjusted as int, destination, hwnd);
        lemma_occurrences_push(released.containers[adjusted as int].windows, window, hwnd);
    }
    if ws.no_empty_containers() {
        assert forall|i: int| 0 <= i < out.containers.len() implies !(
        #[trigger] out.containers[i]).is_empty() by {
            if i != adjusted {
                assert(!released.containers[i].is_empty());
            }
        }
    }
}

/// Giving the focused window a container of its own keeps every handle in
/// as many places as before. The rings keep their focus invariant, the size
/// overrides stay as many as the containers, and no empty container stays
/// behind.
pub proof fn lemma_new_container_for_focused_window(ws: WorkspaceView, id: Seq<char>)
    requires
        ws.wf(),
        ws.new_container_for_focused_window(id).is_ok(),
    ensures
        ws.new_container_for_focused_window(id)->Ok_0.workspace.wf(),
        forall|hwnd: isize| #[trigger]
            ws.new_container_for_focused_window(id)->Ok_0.workspace.occurrences(hwnd)
                == ws.occurrences(hwnd),
        ws.partitioned() ==> ws.new_container_for_focused_window(id)->Ok_0.workspace.partitioned(),
        ws.aligned() ==> ws.new_container_for_focused_window(id)->Ok_0.workspace.aligned(),
        ws.no_empty_containers() ==> ws.new_container_for_focused_window(
            id,
        )->Ok_0.workspace.no_empty_containers(),
{
    let out = ws.new_container_for_focused_window(id)->Ok_0.workspace;
    let source = ws.containers[ws.focused as int];
    let window = source.windows[source.focused as int];
    let released = ws.release_focused_window().workspace;
    let idx = out.focused;
    lemma_release_focused_window(ws, 0);
    lemma_place_window(released, idx, window, id, 0);
    assert forall|hwnd: isize| #[trigger] out.occurrences(hwnd) == ws.occurrences(hwnd) by {
        lemma_release_focused_window(ws, hwnd);
        lemma_place_window(released, idx, window, id, hwnd);
    }
}

/// A new container for a window gives the handle of that window one place
/// more and leaves every other handle where it is. The rings keep their
/// focus invariant, the size overrides stay as many as the containers, and
/// no empty container comes in.
pub proof fn lemma_place_window(
    ws: WorkspaceView,
    idx: nat,
    window: Window,
    id: Seq<char>,
    hwnd: isize,
)
    requires
        ws.wf(),
        idx <= ws.containers.len(),
    ensures
        ws.place_window(idx, window, id).wf(),
        ws.place_window(idx, window, id).occurrences(hwnd) == ws.occurrences(hwnd) + one_if(
            window,
            hwnd,
        ),
        ws.aligned() ==> ws.place_window(idx, window, id).aligned(),
        ws.no_empty_containers() ==> ws.place_window(idx, window, id).no_empty_containers(),
{
    let out = ws.place_window(idx, window, id);
    let single = ContainerView::single(id, window);
    lemma_tiled_insert(ws.containers, idx as int, single, hwnd);
    lemma_occurrences_single(window, hwnd);
    assert forall|i: int| 0 <= i < out.containers.len() implies (#[trigger] out.containers[i]).wf() by {
        if i < idx {
            assert(ws.containers[i].wf());
        } else if i > idx {
            assert(ws.containers[i - 1].wf());
        }
    }
    if ws.no_empty_containers() {
        assert forall|i: int| 0 <= i < out.containers.len() implies !(
        #[trigger] out.containers[i]).is_empty() by {
            if i < idx {
                assert(!ws.containers[i].is_empty());
            } else if i > idx {
                assert(!ws.containers[i - 1].is_empty());
            }
        }
    }
}

/// A new container for a new window gives its handle one place more and
/// leaves every other handle where it is; so the partition holds on where the
/// window was not in the workspace before. The rings keep their focus
/// invariant, the size overrides stay as many as the containers, and no
/// empty container comes in.
pub proof fn lemma_new_container_for_window(ws: WorkspaceView, window: Window, id: Seq<char>)
    requires
        ws.wf(),
    ensures
        ws.new_container_for_window(window, id).wf(),
        forall|hwnd: isize| #[trigger]
            ws.new_container_for_window(window, id).occurrences(hwnd) == ws.occurrences(hwnd)
                + one_if(window, hwnd),
        ws.partitioned() && !ws.contains_window(window.hwnd) ==> ws.new_container_for_window(
            window,
            id,
        ).partitioned(),
        ws.aligned() ==> ws.new_container_for_window(window, id).aligned(),
        ws.no_empty_containers() ==> ws.new_container_for_window(window, id).no_empty_containers(),
{
    let out = ws.new_container_for_window(window, id);
    lemma_place_window(ws, ws.next_idx(), window, id, 0);
    assert forall|hwnd: isize| #[trigger] out.occurrences(hwnd) == ws.occurrences(hwnd) + one_if(
        window,
        hwnd,
    ) by {
        lemma_place_window(ws, ws.next_idx(), window, id, hwnd);
    }
    lemma_contains_window_iff_counted(ws, window.hwnd);
}

/// Letting a window float keeps every handle in as many places as before.
/// The rings keep their focus invariant, the size overrides stay as many as
/// the containers, and no empty container stays behind.
pub proof fn lemma_new_floating_window(ws: WorkspaceView)
    requires
        ws.wf(),
        ws.new_floating_window().is_ok(),
    ensures
        ws.new_floating_window()->Ok_0.workspace.wf(),
        forall|hwnd: isize| #[trigger]
            ws.new_floating_window()->Ok_0.workspace.occurrences(hwnd) == ws.occurrences(hwnd),
        ws.partitioned() ==> ws.new_floating_window()->Ok_0.workspace.partitioned(),
        ws.aligned() ==> ws.new_floating_window()->Ok_0.workspace.aligned(),
        ws.no_empty_containers() ==> ws.new_floating_window()->Ok_0.workspace.no_empty_containers(),
{
    let out = ws.new_floating_window()->Ok_0.workspace;
    if let Some(window) = ws.maximized_window {
        assert forall|hwnd: isize| #[trigger] out.occurrences(hwnd) == ws.occurrences(hwnd) by {
            lemma_occurrences_push(ws.floating_windows, window, hwnd);
        }
    } else if let Some(c) = ws.monocle_container {
        let window = c.windows[c.focused as int];
        lemma_release_monocle_window(ws, 0);
        assert forall|hwnd: isize| #[trigger] out.occurrences(hwnd) == ws.occurrences(hwnd) by {
            lemma_release_monocle_window(ws, hwnd);
            lemma_occurrences_push(ws.floating_windows, window, hwnd);
        }
    } else {
        let source = ws.containers[ws.focused as int];
        let window = source.windows[source.focused as int];
        lemma_release_focused_window(ws, 0);
        assert forall|hwnd: isize| #[trigger] out.occurrences(hwnd) == ws.occurrences(hwnd) by {
            lemma_release_focused_window(ws, hwnd);
            lemma_occurrences_push(ws.floating_windows, window, hwnd);
        }
    }
}

/// Maximizing a window, while none is maximized, keeps every handle in as
/// many places as before. The rings keep their focus invariant, the size
/// overrides stay as many as the containers, and no empty container stays
/// behind.
pub proof fn lemma_new_maximized_window(ws: WorkspaceView, foreground: isize)
    requires
        ws.wf(),
        ws.maximized_window.is_none(),
        ws.new_maximized_window(foreground).is_ok(),
    ensures
        ws.new_maximized_window(foreground)->Ok_0.workspace.wf(),
        forall|hwnd: isize| #[trigger]
            ws.new_maximized_window(foreground)->Ok_0.workspace.occurrences(hwnd)
                == ws.occurrences(hwnd),
        ws.partitioned() ==> ws.new_maximized_window(foreground)->Ok_0.workspace.partitioned(),
        ws.aligned() ==> ws.new_maximized_window(foreground)->Ok_0.workspace.aligned(),
        ws.no_empty_containers() ==> ws.new_maximized_window(
            foreground,
        )->Ok_0.workspace.no_empty_containers(),
{
    let out = ws.new_maximized_window(foreground)->Ok_0.workspace;
    if has_handle(ws.floating_windows, foreground) {
        let k = last_idx_of(ws.floating_windows, foreground);
        lemma_last_idx_exists(ws.floating_windows, foreground);
        assert forall|hwnd: isize| #[trigger] out.occurrences(hwnd) == ws.occurrences(hwnd) by {
            lemma_occurrences_remove(ws.floating_windows, k, hwnd);
        }
    } else if let Some(c) = ws.monocle_container {
        lemma_release_monocle_window(ws, 0);
        assert forall|hwnd: isize| #[trigger] out.occurrences(hwnd) == ws.occurrences(hwnd) by {
            lemma_release_monocle_window(ws, hwnd);
        }
    } else {
        lemma_release_focused_window(ws, 0);
        let released = ws.release_focused_window().workspace;
        assert(out.containers == released.containers);
        assert forall|hwnd: isize| #[trigger] out.occurrences(hwnd) == ws.occurrences(hwnd) by {
            lemma_release_focused_window(ws, hwnd);
        }
    }
}

/// A container that enters the ring brings the places of its windows and
/// leaves every other place as it is. The rings keep their focus invariant
/// where the container keeps its own, and the size overrides stay as many as
/// the containers.
pub proof fn lemma_insert_container_at_idx(
    ws: WorkspaceView,
    idx: nat,
    container: ContainerView,
    hwnd: isize,
)
    requires
        ws.wf(),
        container.wf(),
        idx <= ws.containers.len(),
    ensures
        ws.insert_container_at_idx(idx, container).wf(),
        ws.insert_container_at_idx(idx, container).occurrences(hwnd) == ws.occurrences(hwnd)
            + occurrences(container.windows, hwnd),
        ws.aligned() ==> ws.insert_container_at_idx(idx, container).aligned(),
        ws.no_empty_containers() && !container.is_empty() ==> ws.insert_container_at_idx(
            idx,
            container,
        ).no_empty_containers(),
{
    let out = ws.insert_container_at_idx(idx, container);
    lemma_tiled_insert(ws.containers, idx as int, container, hwnd);
    assert forall|i: int| 0 <= i < out.containers.len() implies (#[trigger] out.containers[i]).wf() by {
        if i < idx {
            assert(ws.containers[i].wf());
        } else if i > idx {
            assert(ws.containers[i - 1].wf());
        }
    }
    if ws.no_empty_containers() && !container.is_empty() {
        assert forall|i: int| 0 <= i < out.containers.len() implies !(
        #[trigger] out.containers[i]).is_empty() by {
            if i < idx {
                assert(!ws.containers[i].is_empty());
            } else if i > idx {
                assert(!ws.containers[i - 1].is_empty());
            }
        }
    }
}

/// A container that is added at the end brings the places of its windows and
/// leaves every other place as it is. The rings keep their focus invariant
/// where the container keeps its own, and the size overrides stay as many as
/// the containers.
pub proof fn lemma_add_container(ws: WorkspaceView, container: ContainerView, hwnd: isize)
    requires
        ws.wf(),
        container.wf(),
    ensures
        ws.add_container(container).wf(),
        ws.add_container(container).occurrences(hwnd) == ws.occurrences(hwnd) + occurrences(
            container.windows,
            hwnd,
        ),
        ws.aligned() ==> ws.add_container(container).aligned(),
        ws.no_empty_containers() && !container.is_empty() ==> ws.add_container(
            container,
        ).no_empty_containers(),
{
    lemma_insert_container_at_idx(ws, ws.containers.len() as nat, container, hwnd);
}

/// A container that leaves the ring takes the places of its windows with it
/// and leaves every other place as it is. The rings keep their focus
/// invariant, the size overrides stay as many as the containers, and no
/// empty container comes in.
pub proof fn lemma_remove_container(ws: WorkspaceView, idx: nat, hwnd: isize)
    requires
        ws.wf(),
    ensures
        ws.remove_container(idx).wf(),
        idx < ws.containers.len() ==> ws.occurrences(hwnd) == ws.remove_container(
            idx,
        ).occurrences(hwnd) + occurrences(ws.containers[idx as int].windows, hwnd),
        idx >= ws.containers.len() ==> ws.remove_container(idx).occurrences(hwnd)
            == ws.occurrences(hwnd),
        ws.aligned() ==> ws.remove_container(idx).aligned(),
        ws.no_empty_containers() ==> ws.remove_container(idx).no_empty_containers(),
{
    let out = ws.remove_container(idx);
    if idx < ws.containers.len() {
        lemma_tiled_remove(ws.containers, idx as int, hwnd);
        assert forall|i: int| 0 <= i < out.containers.len() implies (
        #[trigger] out.containers[i]).wf() by {
            if i < idx {
                assert(ws.containers[i].wf());
            } else {
                assert(ws.containers[i + 1].wf());
            }
        }
        if ws.no_empty_containers() {
            assert forall|i: int| 0 <= i < out.containers.len() implies !(
            #[trigger] out.containers[i]).is_empty() by {
                if i < idx {
                    assert(!ws.containers[i].is_empty());
                } else {
                    assert(!ws.containers[i + 1].is_empty());
                }
            }
        }
    }
}

/// Exchanging two containers keeps every handle in as many places as
/// before. The rings keep their focus invariant, the size overrides stay as
/// many as the containers, and no empty container comes in.
pub proof fn lemma_swap_containers(ws: WorkspaceView, i: nat, j: nat)
    requires
        ws.wf(),
        i < ws.containers.len(),
        j < ws.containers.len(),
    ensures
        ws.swap_containers(i, j).wf(),
        forall|hwnd: isize| #[trigger]
            ws.swap_containers(i, j).occurrences(hwnd) == ws.occurrences(hwnd),
        ws.partitioned() ==> ws.swap_containers(i, j).partitioned(),
        ws.aligned() ==> ws.swap_containers(i, j).aligned(),
        ws.no_empty_containers() ==> ws.swap_containers(i, j).no_empty_containers(),
{
    let out = ws.swap_containers(i, j);
    let half = ws.containers.update(i as int, ws.containers[j as int]);
    assert forall|k: int| 0 <= k < out.containers.len() implies (#[trigger] out.containers[k]).wf() by {
        assert(ws.containers[i as int].wf());
        assert(ws.containers[j as int].wf());
        if k != i && k != j {
            assert(ws.containers[k].wf());
        }
    }
    assert forall|hwnd: isize| #[trigger] out.occurrences(hwnd) == ws.occurrences(hwnd) by {
        lemma_tiled_update(ws.containers, i as int, ws.containers[j as int], hwnd);
        lemma_tiled_update(half, j as int, ws.containers[i as int], hwnd);
    }
    if ws.no_empty_containers() {
        assert forall|k: int| 0 <= k < out.containers.len() implies !(
        #[trigger] out.containers[k]).is_empty() by {
            assert(!ws.containers[i as int].is_empty());
            assert(!ws.containers[j as int].is_empty());
            if k != i && k != j {
                assert(!ws.containers[k].is_empty());
            }
        }
    }
}

/// Moving a floating window to a container of its own keeps every handle in
/// as many places as before. The rings keep their focus invariant, the size
/// overrides stay as many as the containers, and no empty container comes
/// in.
pub proof fn lemma_new_container_for_floating_window(
    ws: WorkspaceView,
    foreground: isize,
    id: Seq<char>,
)
    requires
        ws.wf(),
        ws.new_container_for_floating_window(foreground, id).is_ok(),
    ensures
        ws.new_container_for_floating_window(foreground, id)->Ok_0.wf(),
        forall|hwnd: isize| #[trigger]
            ws.new_container_for_floating_window(foreground, id)->Ok_0.occurrences(hwnd)
                == ws.occurrences(hwnd),
        ws.partitioned() ==> ws.new_container_for_floating_window(
            foreground,
            id,
        )->Ok_0.partitioned(),
        ws.aligned() ==> ws.new_container_for_floating_window(foreground, id)->Ok_0.aligned(),
        ws.no_empty_containers() ==> ws.new_container_for_floating_window(
            foreground,
            id,
        )->Ok_0.no_empty_containers(),
{
    let out = ws.new_container_for_floating_window(foreground, id)->Ok_0;
    let k = last_idx_of(ws.floating_windows, foreground);
    let window = ws.floating_windows[k];
    let taken = ws.remove_focused_floating_window(foreground);
    let single = ContainerView::single(id, window);
    lemma_last_idx_exists(ws.floating_windows, foreground);
    lemma_insert_container_at_idx(taken, ws.focused, single, 0);
    assert forall|hwnd: isize| #[trigger] out.occurrences(hwnd) == ws.occurrences(hwnd) by {
        lemma_occurrences_remove(ws.floating_windows, k, hwnd);
        lemma_insert_container_at_idx(taken, ws.focused, single, hwnd);
        lemma_occurrences_single(window, hwnd);
    }
}

/// Moving the focused container to the monocle slot, while that slot is
/// free, keeps every handle in as many places as before. The rings keep
/// their focus invariant and no empty container comes in. The size override
/// of the container stays behind: where the overrides were as many as the
/// containers, they are now one more.
pub proof fn lemma_new_monocle_container(ws: WorkspaceView)
    requires
        ws.wf(),
        ws.monocle_container.is_none(),
        ws.new_monocle_container().is_ok(),
    ensures
        ws.new_monocle_container()->Ok_0.workspace.wf(),
        forall|hwnd: isize| #[trigger]
            ws.new_monocle_container()->Ok_0.workspace.occurrences(hwnd) == ws.occurrences(hwnd),
        ws.partitioned() ==> ws.new_monocle_container()->Ok_0.workspace.partitioned(),
        ws.aligned() ==> ws.new_monocle_container()->Ok_0.workspace.resize_dimensions.len()
            == ws.new_monocle_container()->Ok_0.workspace.containers.len() + 1,
        ws.no_empty_containers() ==> ws.new_monocle_container()->Ok_0.workspace.no_empty_containers(),
{
    let out = ws.new_monocle_container()->Ok_0.workspace;
    let f = ws.focused as int;
    assert(ws.containers[f].wf());
    assert forall|i: int| 0 <= i < out.containers.len() implies (#[trigger] out.containers[i]).wf() by {
        if i < f {
            assert(ws.containers[i].wf());
        } else {
            assert(ws.containers[i + 1].wf());
        }
    }
    assert forall|hwnd: isize| #[trigger] out.occurrences(hwnd) == ws.occurrences(hwnd) by {
        lemma_tiled_remove(ws.containers, f, hwnd);
    }
    if ws.no_empty_containers() {
        assert(!ws.containers[f].is_empty());
        assert forall|i: int| 0 <= i < out.containers.len() implies !(
        #[trigger] out.containers[i]).is_empty() by {
            if i < f {
                assert(!ws.containers[i].is_empty());
            } else {
                assert(!ws.containers[i + 1].is_empty());
            }
        }
    }
}

/// Growing the ring with empty containers keeps every handle in as many
/// places as before. The rings keep their focus invariant, and the size
/// overrides grow by as many as the containers.
pub proof fn lemma_pad_to(ws: WorkspaceView, len: nat, pad_id: Seq<char>, hwnd: isize)
    requires
        ws.wf(),
    ensures
        ws.pad_to(len, pad_id).wf(),
        ws.pad_to(len, pad_id).occurrences(hwnd) == ws.occurrences(hwnd),
        ws.pad_to(len, pad_id).containers.len() >= len,
        ws.pad_to(len, pad_id).containers.len() - ws.containers.len() == ws.pad_to(
            len,
            pad_id,
        ).resize_dimensions.len() - ws.resize_dimensions.len(),
        len <= ws.containers.len() ==> ws.pad_to(len, pad_id) == ws,
{
    let out = ws.pad_to(len, pad_id);
    if len > ws.containers.len() {
        let count = (len - ws.containers.len()) as nat;
        let pads = Seq::new(count, |i: int| ContainerView::empty(pad_id));
        lemma_tiled_concat(ws.containers, pads, hwnd);
        lemma_tiled_empty_containers(pads, hwnd);
        assert forall|i: int| 0 <= i < out.containers.len() implies (
        #[trigger] out.containers[i]).wf() by {
            if i < ws.containers.len() {
                assert(ws.containers[i].wf());
            }
        }
    }
}

/// Returning the monocle container to the ring keeps every handle in as
/// many places as before, and the rings keep their focus invariant. Where
/// the size overrides were one more than the containers, the override of
/// the monocle container among them, they are now as many. No empty
/// container comes in where the ring reaches the restore index, so that it
/// needs no padding.
pub proof fn lemma_reintegrate_monocle_container(ws: WorkspaceView, pad_id: Seq<char>)
    requires
        ws.wf(),
        ws.reintegrate_monocle_container(pad_id).is_ok(),
    ensures
        ws.reintegrate_monocle_container(pad_id)->Ok_0.workspace.wf(),
        forall|hwnd: isize| #[trigger]
            ws.reintegrate_monocle_container(pad_id)->Ok_0.workspace.occurrences(hwnd)
                == ws.occurrences(hwnd),
        ws.partitioned() ==> ws.reintegrate_monocle_container(pad_id)->Ok_0.workspace.partitioned(),
        ws.resize_dimensions.len() == ws.containers.len() + 1 ==> ws.reintegrate_monocle_container(
            pad_id,
        )->Ok_0.workspace.aligned(),
        ws.no_empty_containers() && ws.monocle_container_restore_idx->0 <= ws.containers.len()
            ==> ws.reintegrate_monocle_container(pad_id)->Ok_0.workspace.no_empty_containers(),
{
    let out = ws.reintegrate_monocle_container(pad_id)->Ok_0.workspace;
    let idx = ws.monocle_container_restore_idx->0;
    let c = ws.monocle_container->0;
    let padded = ws.pad_to(idx, pad_id);
    lemma_pad_to(ws, idx, pad_id, 0);
    assert forall|i: int| 0 <= i < out.containers.len() implies (#[trigger] out.containers[i]).wf() by {
        if i < idx {
            assert(padded.containers[i].wf());
        } else if i > idx {
            assert(padded.containers[i - 1].wf());
        }
    }
    assert forall|hwnd: isize| #[trigger] out.occurrences(hwnd) == ws.occurrences(hwnd) by {
        lemma_pad_to(ws, idx, pad_id, hwnd);
        lemma_tiled_insert(padded.containers, idx as int, c, hwnd);
    }
    if ws.no_empty_containers() && idx <= ws.containers.len() {
        assert forall|i: int| 0 <= i < out.containers.len() implies !(
        #[trigger] out.containers[i]).is_empty() by {
            if i < idx {
                assert(!ws.containers[i].is_empty());
            } else if i > idx {
                assert(!ws.containers[i - 1].is_empty());
            }
        }
    }
}

/// Returning the maximized window to the ring keeps every handle in as many
/// places as before. The rings keep their focus invariant and the size
/// overrides stay as many as the containers. No empty container comes in
/// where the ring reaches the restore index, so that it needs no padding.
pub proof fn lemma_reintegrate_maximized_window(
    ws: WorkspaceView,
    pad_id: Seq<char>,
    id: Seq<char>,
)
    requires
        ws.wf(),
        ws.reintegrate_maximized_window(pad_id, id).is_ok(),
    ensures
        ws.reintegrate_maximized_window(pad_id, id)->Ok_0.workspace.wf(),
        forall|hwnd: isize| #[trigger]
            ws.reintegrate_maximized_window(pad_id, id)->Ok_0.workspace.occurrences(hwnd)
                == ws.occurrences(hwnd),
        ws.partitioned() ==> ws.reintegrate_maximized_window(
            pad_id,
            id,
        )->Ok_0.workspace.partitioned(),
        ws.aligned() ==> ws.reintegrate_maximized_window(pad_id, id)->Ok_0.workspace.aligned(),
        ws.no_empty_containers() && ws.maximized_window_restore_idx->0 <= ws.containers.len()
            ==> ws.reintegrate_maximized_window(pad_id, id)->Ok_0.workspace.no_empty_containers(),
{
    let out = ws.reintegrate_maximized_window(pad_id, id)->Ok_0.workspace;
    let idx = ws.maximized_window_restore_idx->0;
    let window = ws.maximized_window->0;
    let padded = ws.pad_to(idx, pad_id);
    lemma_pad_to(ws, idx, pad_id, 0);
    lemma_place_window(padded, idx, window, id, 0);
    assert forall|hwnd: isize| #[trigger] out.occurrences(hwnd) == ws.occurrences(hwnd) by {
        lemma_pad_to(ws, idx, pad_id, hwnd);
        lemma_place_window(padded, idx, window, id, hwnd);
    }
}

/// Promoting the focused container keeps every handle in as many places as
/// before. The rings keep their focus invariant, the size overrides stay as
/// many as the containers, and no empty container comes in.
pub proof fn lemma_promote_container(ws: WorkspaceView)
    requires
        ws.wf(),
        ws.promote_container().is_ok(),
    ensures
        ws.promote_container()->Ok_0.wf(),
        forall|hwnd: isize| #[trigger]
            ws.promote_container()->Ok_0.occurrences(hwnd) == ws.occurrences(hwnd),
        ws.partitioned() ==> ws.promote_container()->Ok_0.partitioned(),
        ws.aligned() ==> ws.promote_container()->Ok_0.aligned(),
        ws.no_empty_containers() ==> ws.promote_container()->Ok_0.no_empty_containers(),
{
    let out = ws.promote_container()->Ok_0;
    let f = ws.focused;
    let primary = ws.layout.spec_primary_slot_index()->0 as nat;
    let rest = ws.remove_container(f);
    let c = ws.containers[f as int];
    lemma_remove_container(ws, f, 0);
    assert(c.wf());
    assert forall|i: int| 0 <= i < out.containers.len() implies (#[trigger] out.containers[i]).wf() by {
        if i < primary {
            assert(rest.containers[i].wf());
        } else if i > primary {
            assert(rest.containers[i - 1].wf());
        }
    }
    assert forall|hwnd: isize| #[trigger] out.occurrences(hwnd) == ws.occurrences(hwnd) by {
        lemma_remove_container(ws, f, hwnd);
        lemma_tiled_insert(rest.containers, primary as int, c, hwnd);
    }
    if ws.no_empty_containers() {
        assert(!c.is_empty());
        assert forall|i: int| 0 <= i < out.containers.len() implies !(
        #[trigger] out.containers[i]).is_empty() by {
            if i < primary {
                assert(!rest.containers[i].is_empty());
            } else if i > primary {
                assert(!rest.containers[i - 1].is_empty());
            }
        }
    }
}

/// Focusing the container of a window keeps every handle in as many places
/// as before. The rings keep their focus invariant, the size overrides stay
/// as many as the containers, and no empty container comes in.
pub proof fn lemma_focus_container_by_window(ws: WorkspaceView, target: isize)
    requires
        ws.wf(),
        ws.focus_container_by_window(target).is_ok(),
    ensures
        ws.focus_container_by_window(target)->Ok_0.wf(),
        forall|hwnd: isize| #[trigger]
            ws.focus_container_by_window(target)->Ok_0.occurrences(hwnd) == ws.occurrences(hwnd),
        ws.partitioned() ==> ws.focus_container_by_window(target)->Ok_0.partitioned(),
        ws.aligned() ==> ws.focus_container_by_window(target)->Ok_0.aligned(),
        ws.no_empty_containers() ==> ws.focus_container_by_window(target)->Ok_0.no_empty_containers(),
{
    let out = ws.focus_container_by_window(target)->Ok_0;
    let idx = last_container_with(ws.containers, target);
    lemma_last_container_exists(ws.containers, target);
    let c = ws.containers[idx];
    lemma_last_idx_exists(c.windows, target);
    let focused = c.focus_window(last_idx_of(c.windows, target) as nat);
    assert(c.wf());
    assert forall|i: int| 0 <= i < out.containers.len() implies (#[trigger] out.containers[i]).wf() by {
        if i != idx {
            assert(ws.containers[i].wf());
        }
    }
    assert forall|hwnd: isize| #[trigger] out.occurrences(hwnd) == ws.occurrences(hwnd) by {
        lemma_tiled_update(ws.containers, idx, focused, hwnd);
    }
    if ws.no_empty_containers() {
        assert(!c.is_empty());
        assert forall|i: int| 0 <= i < out.containers.len() implies !(
        #[trigger] out.containers[i]).is_empty() by {
            if i != idx {
                assert(!ws.containers[i].is_empty());
            }
        }
    }
}

/// Removing a window takes places from its handle only: every other handle
/// stays in as many places as before, and the handle of the window stands in
/// fewer; in a partitioned workspace it stands in none. The rings keep their
/// focus invariant, the size overrides stay as many as the containers, and
/// no empty container stays behind.
pub proof fn lemma_remove_window(ws: WorkspaceView, gone: isize)
    requires
        ws.wf(),
        ws.remove_window(gone).is_ok(),
    ensures
        ws.remove_window(gone)->Ok_0.workspace.wf(),
        forall|hwnd: isize|
            hwnd != gone ==> #[trigger] ws.remove_window(gone)->Ok_0.workspace.occurrences(hwnd)
                == ws.occurrences(hwnd),
        ws.remove_window(gone)->Ok_0.workspace.occurrences(gone) < ws.occurrences(gone),
        ws.partitioned() ==> ws.remove_window(gone)->Ok_0.workspace.partitioned()
            && !ws.remove_window(gone)->Ok_0.workspace.contains_window(gone),
        ws.aligned() ==> ws.remove_window(gone)->Ok_0.workspace.aligned(),
        ws.no_empty_containers() ==> ws.remove_window(gone)->Ok_0.workspace.no_empty_containers(),
{
    let out = ws.remove_window(gone)->Ok_0.workspace;
    lemma_remove_window_counts(ws, gone, gone);
    assert forall|hwnd: isize| hwnd != gone implies #[trigger] out.occurrences(hwnd)
        == ws.occurrences(hwnd) by {
        lemma_remove_window_counts(ws, gone, hwnd);
    }
    if ws.partitioned() {
        assert(ws.occurrences(gone) <= 1);
        assert forall|hwnd: isize| #[trigger] out.occurrences(hwnd) <= 1 by {
            lemma_remove_window_counts(ws, gone, hwnd);
            assert(ws.occurrences(hwnd) <= 1);
        }
        lemma_contains_window_iff_counted(out, gone);
    }
}

/// What removing the window `gone` does to the count of the handle `hwnd`,
/// and to the validity of the workspace.
pub proof fn lemma_remove_window_counts(ws: WorkspaceView, gone: isize, hwnd: isize)
    requires
        ws.wf(),
        ws.remove_window(gone).is_ok(),
    ensures
        ws.remove_window(gone)->Ok_0.workspace.wf(),
        hwnd != gone ==> ws.remove_window(gone)->Ok_0.workspace.occurrences(hwnd)
            == ws.occurrences(hwnd),
        hwnd == gone ==> ws.remove_window(gone)->Ok_0.workspace.occurrences(hwnd)
            < ws.occurrences(hwnd),
        occurrences(ws.remove_window(gone)->Ok_0.workspace.floating_windows, hwnd) <= occurrences(
            ws.floating_windows,
            hwnd,
        ),
        ws.aligned() ==> ws.remove_window(gone)->Ok_0.workspace.aligned(),
        ws.no_empty_containers() ==> ws.remove_window(gone)->Ok_0.workspace.no_empty_containers(),
{
    let out = ws.remove_window(gone)->Ok_0.workspace;
    if has_handle(ws.floating_windows, gone) {
        lemma_occurrences_without_handle(ws.floating_windows, gone, hwnd);
        lemma_occurrences_positive(ws.floating_windows, gone);
    } else if ws.monocle_container matches Some(c) && has_handle(c.windows, gone) {
        let c = ws.monocle_container->0;
        lemma_first_idx_exists(c.windows, gone);
        let k = first_idx_of(c.windows, gone);
        lemma_occurrences_remove(c.windows, k, hwnd);
        let rest = c.remove_window_by_idx(k as nat);
        if rest.is_empty() {
            assert(occurrences(rest.windows, hwnd) == 0);
        }
    } else if ws.maximized_window matches Some(w) && w.hwnd == gone {
    } else {
        let idx = last_container_with(ws.containers, gone);
        lemma_last_container_exists(ws.containers, gone);
        let c = ws.containers[idx];
        lemma_first_idx_exists(c.windows, gone);
        let k = first_idx_of(c.windows, gone);
        lemma_occurrences_remove(c.windows, k, hwnd);
        let rest = c.remove_window_by_idx(k as nat);
        assert(c.wf());
        if rest.is_empty() {
            assert(occurrences(rest.windows, hwnd) == 0);
            lemma_remove_container(ws, idx as nat, hwnd);
        } else {
            lemma_tiled_update(ws.containers, idx, rest, hwnd);
            assert forall|i: int| 0 <= i < out.containers.len() implies (
            #[trigger] out.containers[i]).wf() by {
                if i != idx {
                    assert(ws.containers[i].wf());
                }
            }
            if ws.no_empty_containers() {
                assert forall|i: int| 0 <= i < out.containers.len() implies !(
                #[trigger] out.containers[i]).is_empty() by {
                    if i != idx {
                        assert(!ws.containers[i].is_empty());
                    }
                }
            }
        }
    }
}

/// Removing the only window of a tiled container: where the container at
/// `i` holds one window and its handle stands nowhere else in the
/// workspace, removing the window succeeds, asks for nothing, and removes
/// that container and the size override at its index, and nothing else. So
/// size overrides that were as many as the containers are so afterwards.
pub proof fn lemma_remove_sole_tiled_window(ws: WorkspaceView, hwnd: isize, i: int)
    requires
        0 <= i < ws.containers.len(),
        ws.containers[i].windows.len() == 1,
        ws.containers[i].windows[0].hwnd == hwnd,
        forall|j: int|
            0 <= j < ws.containers.len() && j != i ==> !has_handle(
                (#[trigger] ws.containers[j]).windows,
                hwnd,
            ),
        !has_handle(ws.floating_windows, hwnd),
        !(ws.monocle_container matches Some(c) && has_handle(c.windows, hwnd)),
        !(ws.maximized_window matches Some(w) && w.hwnd == hwnd),
    ensures
        ws.remove_window(hwnd) == Ok::<Outcome, WorkspaceError>(
            Outcome { workspace: ws.remove_container(i as nat), commands: Seq::empty() },
        ),
        ws.remove_container(i as nat).containers == ws.containers.remove(i),
        ws.aligned() ==> ws.remove_container(i as nat).resize_dimensions
            == ws.resize_dimensions.remove(i) && ws.remove_container(i as nat).aligned(),
{
    let c = ws.containers[i];
    assert(c.windows[0].hwnd == hwnd);
    assert(has_handle(c.windows, hwnd));
    assert(is_last_container_with(ws.containers, hwnd, i));
    lemma_last_container_with(ws.containers, hwnd, i);
    assert(is_first_idx_of(c.windows, hwnd, 0));
    lemma_first_idx_of(c.windows, hwnd, 0);
}

} // verus!
