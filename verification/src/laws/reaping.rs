//! What a reaping pass keeps and what it clears away.
use vstd::prelude::*;
use crate::container::ContainerView;
use crate::counting::lemma_occurrences_positive;
use crate::counting::lemma_occurrences_without_handles;
use crate::laws::placement::lemma_remove_container;
use crate::laws::placement::lemma_remove_sole_tiled_window;
use crate::laws::placement::lemma_remove_window_counts;
use crate::model::occurrences;
use crate::model::stale_visible;
use crate::model::WorkspaceView;
use crate::window::has_handle;
use crate::window::stale_among;
use crate::window::without_handles;
use crate::window::PlatformCommand;
use crate::window::Window;

verus! {

/// Removing windows one after the other takes places from their handles
/// only, and never adds one. The rings keep their focus invariant, the size
/// overrides stay as many as the containers, and no empty container stays
/// behind.
pub proof fn lemma_remove_windows(ws: WorkspaceView, hwnds: Seq<isize>, hwnd: isize)
    requires
        ws.wf(),
    ensures
        ws.remove_windows(hwnds).workspace.wf(),
        ws.remove_windows(hwnds).workspace.occurrences(hwnd) <= ws.occurrences(hwnd),
        !hwnds.contains(hwnd) ==> ws.remove_windows(hwnds).workspace.occurrences(hwnd)
            == ws.occurrences(hwnd),
        occurrences(ws.remove_windows(hwnds).workspace.floating_windows, hwnd) <= occurrences(
            ws.floating_windows,
            hwnd,
        ),
        ws.aligned() ==> ws.remove_windows(hwnds).workspace.aligned(),
        ws.no_empty_containers() ==> ws.remove_windows(hwnds).workspace.no_empty_containers(),
        ws.monocle_container.is_none() ==> ws.remove_windows(
            hwnds,
        ).workspace.monocle_container.is_none(),
        (ws.monocle_container matches Some(c) && !c.is_empty()) ==> (ws.remove_windows(
            hwnds,
        ).workspace.monocle_container matches Some(c) ==> !c.is_empty()),
    decreases hwnds.len(),
{
    if hwnds.len() > 0 {
        let before = ws.remove_windows(hwnds.drop_last()).workspace;
        lemma_remove_windows(ws, hwnds.drop_last(), hwnd);
        if hwnds.drop_last().contains(hwnd) {
            let i = choose|i: int| 0 <= i < hwnds.drop_last().len() && hwnds.drop_last()[i] == hwnd;
            assert(hwnds[i] == hwnd);
        }
        assert(hwnds[hwnds.len() - 1] == hwnds.last());
        if before.remove_window(hwnds.last()).is_ok() {
            lemma_remove_window_counts(before, hwnds.last(), hwnd);
        }
    }
}

/// A handle that is picked out as stale is listed as stale.
pub proof fn lemma_stale_among(windows: Seq<Window>, stale: Seq<isize>, hwnd: isize)
    ensures
        stale_among(windows, stale).contains(hwnd) ==> stale.contains(hwnd),
    decreases windows.len(),
{
    if windows.len() > 0 {
        lemma_stale_among(windows.drop_last(), stale, hwnd);
        let before = stale_among(windows.drop_last(), stale);
        let all = stale_among(windows, stale);
        if all.contains(hwnd) {
            let i = choose|i: int| 0 <= i < all.len() && all[i] == hwnd;
            if i < before.len() {
                assert(before[i] == hwnd);
            }
        }
    }
}

/// A listed handle that some window has is picked out as stale.
pub proof fn lemma_stale_among_complete(windows: Seq<Window>, stale: Seq<isize>, hwnd: isize)
    requires
        has_handle(windows, hwnd),
        stale.contains(hwnd),
    ensures
        stale_among(windows, stale).contains(hwnd),
    decreases windows.len(),
{
    let i = choose|i: int| 0 <= i < windows.len() && (#[trigger] windows[i]).hwnd == hwnd;
    let before = stale_among(windows.drop_last(), stale);
    let all = stale_among(windows, stale);
    if windows.last().hwnd == hwnd {
        assert(all == before.push(hwnd));
        assert(all[all.len() - 1] == hwnd);
    } else {
        assert(windows.drop_last()[i].hwnd == hwnd);
        lemma_stale_among_complete(windows.drop_last(), stale, hwnd);
        let k = choose|k: int| 0 <= k < before.len() && before[k] == hwnd;
        assert(all[k] == hwnd);
    }
}

/// A visible handle that is picked out as stale is listed as stale.
pub proof fn lemma_stale_visible(containers: Seq<ContainerView>, stale: Seq<isize>, hwnd: isize)
    ensures
        stale_visible(containers, stale).contains(hwnd) ==> stale.contains(hwnd),
    decreases containers.len(),
{
    if containers.len() > 0 {
        lemma_stale_visible(containers.drop_last(), stale, hwnd);
        let before = stale_visible(containers.drop_last(), stale);
        let all = stale_visible(containers, stale);
        if all.contains(hwnd) {
            let i = choose|i: int| 0 <= i < all.len() && all[i] == hwnd;
            if i < before.len() {
                assert(before[i] == hwnd);
            }
        }
    }
}

/// Sweeping out the empty containers among the first `upto` keeps every
/// handle in as many places as before. The rings keep their focus
/// invariant and the size overrides stay as many as the containers. Where
/// no container from `upto` on was empty, no tiled container is empty
/// afterwards.
pub proof fn lemma_purge_from(ws: WorkspaceView, upto: nat, hwnd: isize)
    requires
        ws.wf(),
    ensures
        ws.purge_from(upto).wf(),
        ws.purge_from(upto).occurrences(hwnd) == ws.occurrences(hwnd),
        ws.purge_from(upto).containers.len() <= ws.containers.len(),
        ws.purge_from(upto).monocle_container == ws.monocle_container,
        ws.purge_from(upto).floating_windows == ws.floating_windows,
        ws.aligned() ==> ws.purge_from(upto).aligned(),
        (forall|i: int| upto <= i < ws.containers.len() ==> !(#[trigger] ws.containers[i]).is_empty())
            ==> (forall|i: int|
            0 <= i < ws.purge_from(upto).containers.len() ==> !(#[trigger] ws.purge_from(
                upto,
            ).containers[i]).is_empty()),
    decreases upto,
{
    if upto > 0 {
        let idx = (upto - 1) as nat;
        if idx < ws.containers.len() && ws.containers[idx as int].is_empty() {
            let next = ws.remove_container(idx);
            lemma_remove_container(ws, idx, hwnd);
            assert(occurrences(ws.containers[idx as int].windows, hwnd) == 0);
            lemma_purge_from(next, idx, hwnd);
            if forall|i: int|
                upto <= i < ws.containers.len() ==> !(#[trigger] ws.containers[i]).is_empty() {
                assert forall|i: int| idx <= i < next.containers.len() implies !(
                #[trigger] next.containers[i]).is_empty() by {
                    assert(!ws.containers[i + 1].is_empty());
                }
            }
        } else {
            lemma_purge_from(ws, idx, hwnd);
        }
    }
}

/// A reaping pass never gives a handle a place, and takes none from a
/// handle that is not listed as stale. The rings keep their focus invariant
/// and the size overrides stay as many as the containers. Afterwards no
/// tiled container is empty, and neither is the monocle container where it
/// was not before; and no floating window has a handle that is listed as
/// stale.
pub proof fn lemma_reap_orphans(ws: WorkspaceView, stale: Seq<isize>)
    requires
        ws.wf(),
    ensures
        ws.reap_orphans(stale).workspace.wf(),
        forall|hwnd: isize| #[trigger]
            ws.reap_orphans(stale).workspace.occurrences(hwnd) <= ws.occurrences(hwnd),
        forall|hwnd: isize|
            !stale.contains(hwnd) ==> #[trigger] ws.reap_orphans(stale).workspace.occurrences(hwnd)
                == ws.occurrences(hwnd),
        ws.partitioned() ==> ws.reap_orphans(stale).workspace.partitioned(),
        ws.aligned() ==> ws.reap_orphans(stale).workspace.aligned(),
        forall|i: int|
            0 <= i < ws.reap_orphans(stale).workspace.containers.len() ==> !(
            #[trigger] ws.reap_orphans(stale).workspace.containers[i]).is_empty(),
        (ws.monocle_container matches Some(c) ==> !c.is_empty()) ==> ws.reap_orphans(
            stale,
        ).workspace.no_empty_containers(),
        forall|hwnd: isize|
            stale.contains(hwnd) ==> !has_handle(
                ws.reap_orphans(stale).workspace.floating_windows,
                hwnd,
            ),
{
    let visible = stale_visible(ws.containers, stale);
    let floating = stale_among(ws.floating_windows, stale);
    let removed = ws.remove_windows(visible).workspace;
    let swept = WorkspaceView {
        floating_windows: without_handles(removed.floating_windows, floating),
        ..removed
    };
    let out = ws.reap_orphans(stale).workspace;
    lemma_remove_windows(ws, visible, 0);
    lemma_purge_from(swept, swept.containers.len(), 0);
    assert forall|hwnd: isize|
        (#[trigger] out.occurrences(hwnd) <= ws.occurrences(hwnd)) && (!stale.contains(hwnd)
            ==> out.occurrences(hwnd) == ws.occurrences(hwnd)) by {
        lemma_remove_windows(ws, visible, hwnd);
        lemma_stale_visible(ws.containers, stale, hwnd);
        lemma_stale_among(ws.floating_windows, stale, hwnd);
        lemma_occurrences_without_handles(
            removed.floating_windows,
            floating,
            hwnd,
        );
        lemma_purge_from(swept, swept.containers.len(), hwnd);
    }
    if ws.partitioned() {
        assert forall|hwnd: isize| #[trigger] out.occurrences(hwnd) <= 1 by {
            assert(ws.occurrences(hwnd) <= 1);
        }
    }
    assert forall|hwnd: isize| stale.contains(hwnd) implies !has_handle(
        out.floating_windows,
        hwnd,
    ) by {
        lemma_remove_windows(ws, visible, hwnd);
        lemma_purge_from(swept, swept.containers.len(), hwnd);
        lemma_occurrences_positive(removed.floating_windows, hwnd);
        lemma_occurrences_positive(ws.floating_windows, hwnd);
        lemma_occurrences_positive(out.floating_windows, hwnd);
        lemma_occurrences_without_handles(
            removed.floating_windows,
            floating,
            hwnd,
        );
        if has_handle(ws.floating_windows, hwnd) {
            lemma_stale_among_complete(ws.floating_windows, stale, hwnd);
        }
    }
}

/// Whether the window that the container shows, if it shows one, is listed
/// in `stale`.
pub open spec fn shows_stale(container: ContainerView, stale: Seq<isize>) -> bool {
    container.focused_window() matches Some(w) && stale.contains(w.hwnd)
}

/// No visible window is picked out as stale where none is listed.
pub proof fn lemma_stale_visible_none(containers: Seq<ContainerView>, stale: Seq<isize>)
    requires
        forall|i: int| 0 <= i < containers.len() ==> !shows_stale(#[trigger] containers[i], stale),
    ensures
        stale_visible(containers, stale) == Seq::<isize>::empty(),
    decreases containers.len(),
{
    if containers.len() > 0 {
        let front = containers.drop_last();
        assert forall|i: int| 0 <= i < front.len() implies !shows_stale(
            #[trigger] front[i],
            stale,
        ) by {
            assert(!shows_stale(containers[i], stale));
        }
        lemma_stale_visible_none(front, stale);
        assert(!shows_stale(containers[containers.len() - 1], stale));
    }
}

/// Where the container at `i` alone shows a window that is listed, that
/// window alone is picked out as stale.
pub proof fn lemma_stale_visible_one(containers: Seq<ContainerView>, stale: Seq<isize>, i: int)
    requires
        0 <= i < containers.len(),
        shows_stale(containers[i], stale),
        forall|j: int|
            0 <= j < containers.len() && j != i ==> !shows_stale(#[trigger] containers[j], stale),
    ensures
        stale_visible(containers, stale) == seq![containers[i].focused_window()->0.hwnd],
    decreases containers.len(),
{
    let front = containers.drop_last();
    let last = containers.len() - 1;
    if i == last {
        assert forall|j: int| 0 <= j < front.len() implies !shows_stale(
            #[trigger] front[j],
            stale,
        ) by {
            assert(!shows_stale(containers[j], stale));
        }
        lemma_stale_visible_none(front, stale);
        assert(stale_visible(containers, stale) =~= seq![containers[i].focused_window()->0.hwnd]);
    } else {
        assert forall|j: int| 0 <= j < front.len() && j != i implies !shows_stale(
            #[trigger] front[j],
            stale,
        ) by {
            assert(!shows_stale(containers[j], stale));
        }
        assert(front[i] == containers[i]);
        lemma_stale_visible_one(front, stale, i);
        assert(!shows_stale(containers[last], stale));
    }
}

/// No window is picked out as stale where none is listed.
pub proof fn lemma_stale_among_none(windows: Seq<Window>, stale: Seq<isize>)
    requires
        forall|j: int| 0 <= j < windows.len() ==> !stale.contains((#[trigger] windows[j]).hwnd),
    ensures
        stale_among(windows, stale) == Seq::<isize>::empty(),
    decreases windows.len(),
{
    if windows.len() > 0 {
        let front = windows.drop_last();
        assert forall|j: int| 0 <= j < front.len() implies !stale.contains(
            (#[trigger] front[j]).hwnd,
        ) by {
            assert(!stale.contains(windows[j].hwnd));
        }
        lemma_stale_among_none(front, stale);
        assert(!stale.contains(windows[windows.len() - 1].hwnd));
    }
}

/// Where the window at `k` alone is listed, it alone is picked out as
/// stale.
pub proof fn lemma_stale_among_one(windows: Seq<Window>, stale: Seq<isize>, k: int)
    requires
        0 <= k < windows.len(),
        stale.contains(windows[k].hwnd),
        forall|j: int|
            0 <= j < windows.len() && j != k ==> !stale.contains((#[trigger] windows[j]).hwnd),
    ensures
        stale_among(windows, stale) == seq![windows[k].hwnd],
    decreases windows.len(),
{
    let front = windows.drop_last();
    let last = windows.len() - 1;
    if k == last {
        assert forall|j: int| 0 <= j < front.len() implies !stale.contains(
            (#[trigger] front[j]).hwnd,
        ) by {
            assert(!stale.contains(windows[j].hwnd));
        }
        lemma_stale_among_none(front, stale);
        assert(stale_among(windows, stale) =~= seq![windows[k].hwnd]);
    } else {
        assert forall|j: int| 0 <= j < front.len() && j != k implies !stale.contains(
            (#[trigger] front[j]).hwnd,
        ) by {
            assert(!stale.contains(windows[j].hwnd));
        }
        assert(front[k] == windows[k]);
        lemma_stale_among_one(front, stale, k);
        assert(!stale.contains(windows[last].hwnd));
    }
}

/// Taking out the windows with listed handles leaves a sequence as it is
/// where no window of it has a listed handle.
pub proof fn lemma_without_unlisted(windows: Seq<Window>, gone: Seq<isize>)
    requires
        forall|j: int| 0 <= j < windows.len() ==> !gone.contains((#[trigger] windows[j]).hwnd),
    ensures
        without_handles(windows, gone) == windows,
    decreases windows.len(),
{
    reveal(Seq::filter);
    if windows.len() > 0 {
        let front = windows.drop_last();
        assert forall|j: int| 0 <= j < front.len() implies !gone.contains(
            (#[trigger] front[j]).hwnd,
        ) by {
            assert(!gone.contains(windows[j].hwnd));
        }
        lemma_without_unlisted(front, gone);
        assert(!gone.contains(windows[windows.len() - 1].hwnd));
        assert(front.push(windows.last()) =~= windows);
    } else {
        assert(without_handles(windows, gone) =~= windows);
    }
}

/// Taking out the windows with the handle of the window at `k` takes out
/// that window alone where no other window has its handle.
pub proof fn lemma_without_one(windows: Seq<Window>, k: int)
    requires
        0 <= k < windows.len(),
        forall|j: int|
            0 <= j < windows.len() && j != k ==> (#[trigger] windows[j]).hwnd != windows[k].hwnd,
    ensures
        without_handles(windows, seq![windows[k].hwnd]) == windows.remove(k),
    decreases windows.len(),
{
    reveal(Seq::filter);
    let gone = seq![windows[k].hwnd];
    let front = windows.drop_last();
    let last = windows.len() - 1;
    assert(gone[0] == windows[k].hwnd);
    if k == last {
        assert forall|j: int| 0 <= j < front.len() implies !gone.contains(
            (#[trigger] front[j]).hwnd,
        ) by {
            assert(windows[j].hwnd != windows[k].hwnd);
        }
        lemma_without_unlisted(front, gone);
        assert(gone.contains(windows.last().hwnd));
        assert(front =~= windows.remove(k));
    } else {
        assert forall|j: int| 0 <= j < front.len() && j != k implies (#[trigger] front[j]).hwnd
            != front[k].hwnd by {
            assert(windows[j].hwnd != windows[k].hwnd);
        }
        lemma_without_one(front, k);
        assert(windows[last].hwnd != windows[k].hwnd);
        assert(!gone.contains(windows.last().hwnd));
        assert(front.remove(k).push(windows.last()) =~= windows.remove(k));
    }
}

/// Sweeping a ring that has no empty container leaves the workspace as it
/// is.
pub proof fn lemma_purge_nothing(ws: WorkspaceView, upto: nat)
    requires
        forall|i: int| 0 <= i < ws.containers.len() ==> !(#[trigger] ws.containers[i]).is_empty(),
    ensures
        ws.purge_from(upto) == ws,
    decreases upto,
{
    if upto > 0 {
        lemma_purge_nothing(ws, (upto - 1) as nat);
    }
}

/// A reaping pass is safe when nothing is stale: where no visible window and
/// no floating window is listed as stale and no tiled container is empty,
/// the pass leaves the workspace as it is, counts nothing and asks for
/// nothing. So a second pass with the same findings changes nothing
/// either.
pub proof fn lemma_reap_nothing_stale(ws: WorkspaceView, stale: Seq<isize>)
    requires
        forall|i: int|
            0 <= i < ws.containers.len() ==> !shows_stale(#[trigger] ws.containers[i], stale),
        forall|j: int|
            0 <= j < ws.floating_windows.len() ==> !stale.contains(
                (#[trigger] ws.floating_windows[j]).hwnd,
            ),
        forall|i: int| 0 <= i < ws.containers.len() ==> !(#[trigger] ws.containers[i]).is_empty(),
    ensures
        ws.reap_orphans(stale).workspace == ws,
        ws.reap_orphans(stale).commands == Seq::<PlatformCommand>::empty(),
        ws.reap_orphans(stale).windows == 0,
        ws.reap_orphans(stale).containers == 0,
{
    lemma_stale_visible_none(ws.containers, stale);
    lemma_stale_among_none(ws.floating_windows, stale);
    lemma_without_unlisted(ws.floating_windows, Seq::empty());
    lemma_purge_nothing(ws, ws.containers.len());
}

/// Reaping one stale floating window: where the floating window at `k`
/// alone is listed as stale, no visible window is, and no tiled container is
/// empty, the pass takes out that window and nothing else. The floating
/// windows that remain keep their order; the containers, the focus and the
/// size overrides stay as they are; one window is counted and no
/// container.
pub proof fn lemma_reap_one_stale_floating(ws: WorkspaceView, stale: Seq<isize>, k: int)
    requires
        0 <= k < ws.floating_windows.len(),
        stale.contains(ws.floating_windows[k].hwnd),
        forall|j: int|
            0 <= j < ws.floating_windows.len() && j != k ==> !stale.contains(
                (#[trigger] ws.floating_windows[j]).hwnd,
            ),
        forall|i: int|
            0 <= i < ws.containers.len() ==> !shows_stale(#[trigger] ws.containers[i], stale),
        forall|i: int| 0 <= i < ws.containers.len() ==> !(#[trigger] ws.containers[i]).is_empty(),
    ensures
        ws.reap_orphans(stale).workspace == (WorkspaceView {
            floating_windows: ws.floating_windows.remove(k),
            ..ws
        }),
        !has_handle(ws.reap_orphans(stale).workspace.floating_windows, ws.floating_windows[k].hwnd),
        ws.reap_orphans(stale).commands == Seq::<PlatformCommand>::empty(),
        ws.reap_orphans(stale).windows == 1,
        ws.reap_orphans(stale).containers == 0,
{
    let gone = ws.floating_windows[k].hwnd;
    let rest = ws.floating_windows.remove(k);
    lemma_stale_visible_none(ws.containers, stale);
    lemma_stale_among_one(ws.floating_windows, stale, k);
    assert forall|j: int| 0 <= j < ws.floating_windows.len() && j != k implies (
    #[trigger] ws.floating_windows[j]).hwnd != gone by {
        assert(!stale.contains(ws.floating_windows[j].hwnd));
    }
    lemma_without_one(ws.floating_windows, k);
    let swept = WorkspaceView { floating_windows: rest, ..ws };
    lemma_purge_nothing(swept, swept.containers.len());
    assert forall|j: int| 0 <= j < rest.len() implies (#[trigger] rest[j]).hwnd != gone by {
        if j < k {
            assert(ws.floating_windows[j].hwnd != gone);
        } else {
            assert(ws.floating_windows[j + 1].hwnd != gone);
        }
    }
}

/// Reaping a container whose only window is stale: where the container at
/// `i` holds one window, that window is listed as stale and stands nowhere
/// else in the workspace, no other visible window and no floating window is
/// listed, and no tiled container is empty, the pass removes that container
/// and the size override at its index, and nothing else. One window is
/// counted, and no container, since none was left empty for the final
/// sweep.
pub proof fn lemma_reap_one_stale_container(ws: WorkspaceView, stale: Seq<isize>, i: int)
    requires
        ws.wf(),
        0 <= i < ws.containers.len(),
        ws.containers[i].windows.len() == 1,
        stale.contains(ws.containers[i].windows[0].hwnd),
        forall|j: int|
            0 <= j < ws.containers.len() && j != i ==> !shows_stale(
                #[trigger] ws.containers[j],
                stale,
            ) && !has_handle(ws.containers[j].windows, ws.containers[i].windows[0].hwnd),
        forall|j: int|
            0 <= j < ws.floating_windows.len() ==> !stale.contains(
                (#[trigger] ws.floating_windows[j]).hwnd,
            ),
        !(ws.monocle_container matches Some(c) && has_handle(
            c.windows,
            ws.containers[i].windows[0].hwnd,
        )),
        !(ws.maximized_window matches Some(w) && w.hwnd == ws.containers[i].windows[0].hwnd),
        forall|j: int| 0 <= j < ws.containers.len() ==> !(#[trigger] ws.containers[j]).is_empty(),
    ensures
        ws.reap_orphans(stale).workspace == ws.remove_container(i as nat),
        ws.reap_orphans(stale).workspace.containers == ws.containers.remove(i),
        ws.aligned() ==> ws.reap_orphans(stale).workspace.resize_dimensions
            == ws.resize_dimensions.remove(i) && ws.reap_orphans(stale).workspace.aligned(),
        ws.reap_orphans(stale).commands == Seq::<PlatformCommand>::empty(),
        ws.reap_orphans(stale).windows == 1,
        ws.reap_orphans(stale).containers == 0,
{
    let gone = ws.containers[i].windows[0].hwnd;
    let out = ws.remove_container(i as nat);
    assert(ws.containers[i].wf());
    assert(ws.containers[i].focused_window() == Some(ws.containers[i].windows[0]));
    lemma_stale_visible_one(ws.containers, stale, i);
    let visible = stale_visible(ws.containers, stale);
    assert(visible.drop_last() =~= Seq::<isize>::empty());
    assert(visible.last() == gone);
    assert(ws.remove_windows(visible.drop_last()).workspace == ws);
    assert forall|j: int| 0 <= j < ws.floating_windows.len() implies (
    #[trigger] ws.floating_windows[j]).hwnd != gone by {
        assert(!stale.contains(ws.floating_windows[j].hwnd));
    }
    lemma_remove_sole_tiled_window(ws, gone, i);
    lemma_stale_among_none(ws.floating_windows, stale);
    lemma_without_unlisted(ws.floating_windows, Seq::empty());
    assert forall|j: int| 0 <= j < out.containers.len() implies !(
    #[trigger] out.containers[j]).is_empty() by {
        if j < i {
            assert(!ws.containers[j].is_empty());
        } else {
            assert(!ws.containers[j + 1].is_empty());
        }
    }
    lemma_purge_nothing(out, out.containers.len());
}

} // verus!
