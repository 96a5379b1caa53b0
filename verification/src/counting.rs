//! How the number of places in which a handle stands changes with a
//! sequence of windows or of containers.
use vstd::prelude::*;
use crate::container::ContainerView;
use crate::model::occurrences;
use crate::model::tiled_contains;
use crate::model::tiled_occurrences;
use crate::window::has_handle;
use crate::window::without_handle;
use crate::window::without_handles;
use crate::window::Window;

verus! {

/// What a window adds to the count of the handle `hwnd`.
pub open spec fn one_if(window: Window, hwnd: isize) -> nat {
    if window.hwnd == hwnd {
        1
    } else {
        0
    }
}

/// The count over two sequences joined is the sum of the counts.
pub proof fn lemma_occurrences_concat(a: Seq<Window>, b: Seq<Window>, hwnd: isize)
    ensures
        occurrences(a + b, hwnd) == occurrences(a, hwnd) + occurrences(b, hwnd),
    decreases b.len(),
{
    if b.len() == 0 {
        assert(a + b =~= a);
    } else {
        assert((a + b).drop_last() =~= a + b.drop_last());
        lemma_occurrences_concat(a, b.drop_last(), hwnd);
    }
}

/// A sequence of one window counts that window.
pub proof fn lemma_occurrences_single(window: Window, hwnd: isize)
    ensures
        occurrences(seq![window], hwnd) == one_if(window, hwnd),
{
    assert(seq![window].drop_last() =~= Seq::<Window>::empty());
    assert(occurrences(Seq::<Window>::empty(), hwnd) == 0);
}

/// The count splits at any index into what stands before it, the window at
/// it and what stands after it.
pub proof fn lemma_occurrences_split(windows: Seq<Window>, i: int, hwnd: isize)
    requires
        0 <= i < windows.len(),
    ensures
        occurrences(windows, hwnd) == occurrences(windows.take(i), hwnd) + one_if(
            windows[i],
            hwnd,
        ) + occurrences(windows.skip(i + 1), hwnd),
{
    assert(windows =~= windows.take(i) + seq![windows[i]] + windows.skip(i + 1));
    lemma_occurrences_concat(windows.take(i) + seq![windows[i]], windows.skip(i + 1), hwnd);
    lemma_occurrences_concat(windows.take(i), seq![windows[i]], hwnd);
    lemma_occurrences_single(windows[i], hwnd);
}

/// A window that leaves takes its own count with it.
pub proof fn lemma_occurrences_remove(windows: Seq<Window>, i: int, hwnd: isize)
    requires
        0 <= i < windows.len(),
    ensures
        occurrences(windows, hwnd) == occurrences(windows.remove(i), hwnd) + one_if(
            windows[i],
            hwnd,
        ),
{
    lemma_occurrences_split(windows, i, hwnd);
    assert(windows.remove(i) =~= windows.take(i) + windows.skip(i + 1));
    lemma_occurrences_concat(windows.take(i), windows.skip(i + 1), hwnd);
}

/// A window that enters brings its own count.
pub proof fn lemma_occurrences_push(windows: Seq<Window>, window: Window, hwnd: isize)
    ensures
        occurrences(windows.push(window), hwnd) == occurrences(windows, hwnd) + one_if(
            window,
            hwnd,
        ),
{
    assert(windows.push(window).drop_last() =~= windows);
}

/// A handle is counted exactly when a window has it.
pub proof fn lemma_occurrences_positive(windows: Seq<Window>, hwnd: isize)
    ensures
        occurrences(windows, hwnd) > 0 <==> has_handle(windows, hwnd),
    decreases windows.len(),
{
    if windows.len() > 0 {
        let front = windows.drop_last();
        lemma_occurrences_positive(front, hwnd);
        if has_handle(front, hwnd) {
            let i = choose|i: int| 0 <= i < front.len() && (#[trigger] front[i]).hwnd == hwnd;
            assert(windows[i].hwnd == hwnd);
        }
        if windows.last().hwnd == hwnd {
            assert(windows[windows.len() - 1].hwnd == hwnd);
        }
        if has_handle(windows, hwnd) {
            let i = choose|i: int| 0 <= i < windows.len() && (#[trigger] windows[i]).hwnd == hwnd;
            if i < front.len() {
                assert(front[i].hwnd == hwnd);
            }
        }
    }
}

/// Where every window with a handle leaves, that handle is counted no more,
/// and every other handle as before.
pub proof fn lemma_occurrences_without_handle(windows: Seq<Window>, gone: isize, hwnd: isize)
    ensures
        occurrences(without_handle(windows, gone), hwnd) == if hwnd == gone {
            0
        } else {
            occurrences(windows, hwnd)
        },
    decreases windows.len(),
{
    reveal(Seq::filter);
    if windows.len() > 0 {
        lemma_occurrences_without_handle(windows.drop_last(), gone, hwnd);
        if windows.last().hwnd != gone {
            lemma_occurrences_push(
                without_handle(windows.drop_last(), gone),
                windows.last(),
                hwnd,
            );
        }
    }
}

/// Where the windows with listed handles leave, a listed handle is counted
/// no more, and every other handle as before.
pub proof fn lemma_occurrences_without_handles(
    windows: Seq<Window>,
    gone: Seq<isize>,
    hwnd: isize,
)
    ensures
        occurrences(without_handles(windows, gone), hwnd) == if gone.contains(hwnd) {
            0
        } else {
            occurrences(windows, hwnd)
        },
    decreases windows.len(),
{
    reveal(Seq::filter);
    if windows.len() > 0 {
        lemma_occurrences_without_handles(windows.drop_last(), gone, hwnd);
        if !gone.contains(windows.last().hwnd) {
            lemma_occurrences_push(
                without_handles(windows.drop_last(), gone),
                windows.last(),
                hwnd,
            );
        }
    }
}

/// The count over two sequences of containers joined is the sum of the
/// counts.
pub proof fn lemma_tiled_concat(a: Seq<ContainerView>, b: Seq<ContainerView>, hwnd: isize)
    ensures
        tiled_occurrences(a + b, hwnd) == tiled_occurrences(a, hwnd) + tiled_occurrences(b, hwnd),
    decreases b.len(),
{
    if b.len() == 0 {
        assert(a + b =~= a);
    } else {
        assert((a + b).drop_last() =~= a + b.drop_last());
        lemma_tiled_concat(a, b.drop_last(), hwnd);
    }
}

/// A sequence of one container counts the windows of that container.
pub proof fn lemma_tiled_single(container: ContainerView, hwnd: isize)
    ensures
        tiled_occurrences(seq![container], hwnd) == occurrences(container.windows, hwnd),
{
    assert(seq![container].drop_last() =~= Seq::<ContainerView>::empty());
    assert(tiled_occurrences(Seq::<ContainerView>::empty(), hwnd) == 0);
}

/// The count splits at any index into what stands before it, the container
/// at it and what stands after it.
pub proof fn lemma_tiled_split(containers: Seq<ContainerView>, i: int, hwnd: isize)
    requires
        0 <= i < containers.len(),
    ensures
        tiled_occurrences(containers, hwnd) == tiled_occurrences(containers.take(i), hwnd)
            + occurrences(containers[i].windows, hwnd) + tiled_occurrences(
            containers.skip(i + 1),
            hwnd,
        ),
{
    assert(containers =~= containers.take(i) + seq![containers[i]] + containers.skip(i + 1));
    lemma_tiled_concat(containers.take(i) + seq![containers[i]], containers.skip(i + 1), hwnd);
    lemma_tiled_concat(containers.take(i), seq![containers[i]], hwnd);
    lemma_tiled_single(containers[i], hwnd);
}

/// A container that leaves takes the count of its windows with it.
pub proof fn lemma_tiled_remove(containers: Seq<ContainerView>, i: int, hwnd: isize)
    requires
        0 <= i < containers.len(),
    ensures
        tiled_occurrences(containers, hwnd) == tiled_occurrences(containers.remove(i), hwnd)
            + occurrences(containers[i].windows, hwnd),
{
    lemma_tiled_split(containers, i, hwnd);
    assert(containers.remove(i) =~= containers.take(i) + containers.skip(i + 1));
    lemma_tiled_concat(containers.take(i), containers.skip(i + 1), hwnd);
}

/// A container that enters brings the count of its windows.
pub proof fn lemma_tiled_insert(
    containers: Seq<ContainerView>,
    i: int,
    container: ContainerView,
    hwnd: isize,
)
    requires
        0 <= i <= containers.len(),
    ensures
        tiled_occurrences(containers.insert(i, container), hwnd) == tiled_occurrences(
            containers,
            hwnd,
        ) + occurrences(container.windows, hwnd),
{
    let after = containers.insert(i, container);
    lemma_tiled_remove(after, i, hwnd);
    assert(after.remove(i) =~= containers);
}

/// A container that changes exchanges the count of its windows.
pub proof fn lemma_tiled_update(
    containers: Seq<ContainerView>,
    i: int,
    container: ContainerView,
    hwnd: isize,
)
    requires
        0 <= i < containers.len(),
    ensures
        tiled_occurrences(containers.update(i, container), hwnd) + occurrences(
            containers[i].windows,
            hwnd,
        ) == tiled_occurrences(containers, hwnd) + occurrences(container.windows, hwnd),
{
    let after = containers.update(i, container);
    lemma_tiled_remove(after, i, hwnd);
    lemma_tiled_remove(containers, i, hwnd);
    assert(after.remove(i) =~= containers.remove(i));
}

/// A handle is counted among the containers exactly when a window of one of
/// them has it.
pub proof fn lemma_tiled_positive(containers: Seq<ContainerView>, hwnd: isize)
    ensures
        tiled_occurrences(containers, hwnd) > 0 <==> tiled_contains(containers, hwnd),
    decreases containers.len(),
{
    if containers.len() > 0 {
        let front = containers.drop_last();
        lemma_tiled_positive(front, hwnd);
        lemma_occurrences_positive(containers.last().windows, hwnd);
        if tiled_contains(front, hwnd) {
            let i = choose|i: int|
                0 <= i < front.len() && has_handle((#[trigger] front[i]).windows, hwnd);
            assert(has_handle(containers[i].windows, hwnd));
        }
        if has_handle(containers.last().windows, hwnd) {
            assert(has_handle(containers[containers.len() - 1].windows, hwnd));
        }
        if tiled_contains(containers, hwnd) {
            let i = choose|i: int|
                0 <= i < containers.len() && has_handle((#[trigger] containers[i]).windows, hwnd);
            if i < front.len() {
                assert(has_handle(front[i].windows, hwnd));
            }
        }
    }
}

/// Containers without windows count nothing.
pub proof fn lemma_tiled_empty_containers(containers: Seq<ContainerView>, hwnd: isize)
    requires
        forall|i: int| 0 <= i < containers.len() ==> (#[trigger] containers[i]).is_empty(),
    ensures
        tiled_occurrences(containers, hwnd) == 0,
    decreases containers.len(),
{
    if containers.len() > 0 {
        assert(containers[containers.len() - 1].is_empty());
        assert forall|i: int| 0 <= i < containers.drop_last().len() implies (
        #[trigger] containers.drop_last()[i]).is_empty() by {
            assert(containers[i].is_empty());
        }
        lemma_tiled_empty_containers(containers.drop_last(), hwnd);
    }
}

} // verus!
