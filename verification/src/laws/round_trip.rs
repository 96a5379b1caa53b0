//! Transitions that undo each other, and a promotion that changes
//! nothing.
use vstd::prelude::*;
use crate::container::ContainerView;
use crate::model::WorkspaceView;
use crate::window::has_handle;

verus! {

/// Promoting the container that stands in the primary slot already changes
/// neither the order of the containers nor the focus, and where that slot
/// has a size override, no size override either.
pub proof fn lemma_promote_primary_is_noop(ws: WorkspaceView)
    requires
        ws.wf(),
        ws.containers.len() > 0,
        ws.layout.spec_primary_slot_index() matches Some(p) && p == ws.focused,
    ensures
        ws.promote_container().is_ok(),
        ws.promote_container()->Ok_0.containers == ws.containers,
        ws.promote_container()->Ok_0.focused == ws.focused,
        ws.focused < ws.resize_dimensions.len() ==> ws.promote_container()->Ok_0 == ws,
{
    let out = ws.promote_container()->Ok_0;
    assert(out.containers =~= ws.containers);
    if ws.focused < ws.resize_dimensions.len() {
        assert(out.resize_dimensions =~= ws.resize_dimensions);
    }
}

/// A monocle container that returns at once stands where it stood: the
/// containers, their order, the focus and the size overrides are as they
/// were before it left, and the monocle slot is free again.
pub proof fn lemma_monocle_round_trip(ws: WorkspaceView, pad_id: Seq<char>)
    requires
        ws.wf(),
        ws.focused < ws.containers.len(),
    ensures
        ws.new_monocle_container().is_ok(),
        ws.new_monocle_container()->Ok_0.workspace.reintegrate_monocle_container(pad_id).is_ok(),
        ws.new_monocle_container()->Ok_0.workspace.reintegrate_monocle_container(
            pad_id,
        )->Ok_0.workspace == (WorkspaceView {
            monocle_container: None,
            monocle_container_restore_idx: None,
            ..ws
        }),
{
    let away = ws.new_monocle_container()->Ok_0.workspace;
    let back = away.reintegrate_monocle_container(pad_id)->Ok_0.workspace;
    assert(away.pad_to(ws.focused, pad_id) == away);
    assert(back.containers =~= ws.containers);
}

/// A maximized tiled window that returns at once stands at the index from
/// which it left: a container that holds it alone stands at the index that
/// had the focus, and has the focus; the other windows of its old container,
/// if it had any, follow right behind; every other container keeps its
/// order; and the maximized slot is free again.
pub proof fn lemma_maximized_round_trip(
    ws: WorkspaceView,
    foreground: isize,
    pad_id: Seq<char>,
    id: Seq<char>,
)
    requires
        ws.wf(),
        !has_handle(ws.floating_windows, foreground),
        ws.monocle_container.is_none(),
        ws.focused_window_error().is_none(),
    ensures
        ws.new_maximized_window(foreground).is_ok(),
        ws.new_maximized_window(foreground)->Ok_0.workspace.reintegrate_maximized_window(
            pad_id,
            id,
        ).is_ok(),
        ({
            let source = ws.containers[ws.focused as int];
            let window = source.windows[source.focused as int];
            let rest = source.remove_focused_window();
            let back = ws.new_maximized_window(
                foreground,
            )->Ok_0.workspace.reintegrate_maximized_window(pad_id, id)->Ok_0.workspace;
            &&& back.focused == ws.focused
            &&& back.maximized_window.is_none()
            &&& back.maximized_window_restore_idx.is_none()
            &&& back.containers == if rest.is_empty() {
                ws.containers.update(ws.focused as int, ContainerView::single(id, window))
            } else {
                ws.containers.update(ws.focused as int, rest).insert(
                    ws.focused as int,
                    ContainerView::single(id, window),
                )
            }
        }),
{
    let source = ws.containers[ws.focused as int];
    let window = source.windows[source.focused as int];
    let rest = source.remove_focused_window();
    let away = ws.new_maximized_window(foreground)->Ok_0.workspace;
    let back = away.reintegrate_maximized_window(pad_id, id)->Ok_0.workspace;
    assert(away.pad_to(ws.focused, pad_id) == away);
    if rest.is_empty() {
        assert(back.containers =~= ws.containers.update(
            ws.focused as int,
            ContainerView::single(id, window),
        ));
    } else {
        assert(back.containers =~= ws.containers.update(ws.focused as int, rest).insert(
            ws.focused as int,
            ContainerView::single(id, window),
        ));
    }
}

} // verus!
