//! The placement state machine as a whole: the transitions that move a
//! window or a container from one place to another, taken one after the
//! other.
use vstd::prelude::*;
use crate::laws::placement::lemma_focus_container_by_window;
use crate::laws::placement::lemma_move_window_to_container;
use crate::laws::placement::lemma_new_container_for_floating_window;
use crate::laws::placement::lemma_new_container_for_focused_window;
use crate::laws::placement::lemma_new_floating_window;
use crate::laws::placement::lemma_new_maximized_window;
use crate::laws::placement::lemma_new_monocle_container;
use crate::laws::placement::lemma_promote_container;
use crate::laws::placement::lemma_reintegrate_maximized_window;
use crate::laws::placement::lemma_reintegrate_monocle_container;
use crate::laws::placement::lemma_swap_containers;
use crate::model::WorkspaceView;

verus! {

/// One transition of the placement state machine, with what it takes from
/// outside: the handle that the platform reports as focused, and the
/// identities that are drawn for new containers.
pub enum Transition {
    NewContainerForFocusedWindow { id: Seq<char> },
    NewContainerForFloatingWindow { foreground: isize, id: Seq<char> },
    NewFloatingWindow,
    NewMonocleContainer,
    ReintegrateMonocleContainer { pad_id: Seq<char> },
    NewMaximizedWindow { foreground: isize },
    ReintegrateMaximizedWindow { pad_id: Seq<char>, id: Seq<char> },
    PromoteContainer,
    MoveWindowToContainer { target: nat },
    FocusContainerByWindow { hwnd: isize },
    FocusContainer { idx: nat },
    SwapContainers { i: nat, j: nat },
}

impl WorkspaceView {
    /// Whether the workspace is ready for the transition: the monocle slot
    /// is free for a new monocle container, the maximized slot is free for a
    /// new maximized window, and the containers to exchange exist.
    pub open spec fn admits(self, t: Transition) -> bool {
        match t {
            Transition::NewMonocleContainer => self.monocle_container.is_none(),
            Transition::NewMaximizedWindow { .. } => self.maximized_window.is_none(),
            Transition::SwapContainers { i, j } => i < self.containers.len() && j
                < self.containers.len(),
            _ => true,
        }
    }

    /// The workspace after the transition. A transition that fails leaves
    /// the workspace as it is.
    pub open spec fn step(self, t: Transition) -> WorkspaceView {
        match t {
            Transition::NewContainerForFocusedWindow { id } => match self.new_container_for_focused_window(
                id,
            ) {
                Ok(out) => out.workspace,
                Err(_) => self,
            },
            Transition::NewContainerForFloatingWindow {
                foreground,
                id,
            } => match self.new_container_for_floating_window(foreground, id) {
                Ok(out) => out,
                Err(_) => self,
            },
            Transition::NewFloatingWindow => match self.new_floating_window() {
                Ok(out) => out.workspace,
                Err(_) => self,
            },
            Transition::NewMonocleContainer => match self.new_monocle_container() {
                Ok(out) => out.workspace,
                Err(_) => self,
            },
            Transition::ReintegrateMonocleContainer { pad_id } => match self.reintegrate_monocle_container(
                pad_id,
            ) {
                Ok(out) => out.workspace,
                Err(_) => self,
            },
            Transition::NewMaximizedWindow { foreground } => match self.new_maximized_window(
                foreground,
            ) {
                Ok(out) => out.workspace,
                Err(_) => self,
            },
            Transition::ReintegrateMaximizedWindow {
                pad_id,
                id,
            } => match self.reintegrate_maximized_window(pad_id, id) {
                Ok(out) => out.workspace,
                Err(_) => self,
            },
            Transition::PromoteContainer => match self.promote_container() {
                Ok(out) => out,
                Err(_) => self,
            },
            Transition::MoveWindowToContainer { target } => match self.move_window_to_container(
                target,
            ) {
                Ok(out) => out.workspace,
                Err(_) => self,
            },
            Transition::FocusContainerByWindow { hwnd } => match self.focus_container_by_window(
                hwnd,
            ) {
                Ok(out) => out,
                Err(_) => self,
            },
            Transition::FocusContainer { idx } => self.focus_container(idx),
            Transition::SwapContainers { i, j } => self.swap_containers(i, j),
        }
    }

    /// The workspace after the transitions, taken in order.
    pub open spec fn run(self, ts: Seq<Transition>) -> WorkspaceView
        decreases ts.len(),
    {
        if ts.len() == 0 {
            self
        } else {
            self.run(ts.drop_last()).step(ts.last())
        }
    }

    /// Whether the workspace is ready for each of the transitions at the
    /// time it is taken.
    pub open spec fn admits_all(self, ts: Seq<Transition>) -> bool
        decreases ts.len(),
    {
        ts.len() == 0 || (self.admits_all(ts.drop_last()) && self.run(ts.drop_last()).admits(
            ts.last(),
        ))
    }
}

/// A transition for which the workspace is ready keeps every handle in as
/// many places as before, and the rings keep their focus invariant.
pub proof fn lemma_step_keeps_places(ws: WorkspaceView, t: Transition)
    requires
        ws.wf(),
        ws.admits(t),
    ensures
        ws.step(t).wf(),
        forall|hwnd: isize| #[trigger] ws.step(t).occurrences(hwnd) == ws.occurrences(hwnd),
        ws.partitioned() ==> ws.step(t).partitioned(),
{
    match t {
        Transition::NewContainerForFocusedWindow { id } => {
            if ws.new_container_for_focused_window(id).is_ok() {
                lemma_new_container_for_focused_window(ws, id);
            }
        },
        Transition::NewContainerForFloatingWindow { foreground, id } => {
            if ws.new_container_for_floating_window(foreground, id).is_ok() {
                lemma_new_container_for_floating_window(ws, foreground, id);
            }
        },
        Transition::NewFloatingWindow => {
            if ws.new_floating_window().is_ok() {
                lemma_new_floating_window(ws);
            }
        },
        Transition::NewMonocleContainer => {
            if ws.new_monocle_container().is_ok() {
                lemma_new_monocle_container(ws);
            }
        },
        Transition::ReintegrateMonocleContainer { pad_id } => {
            if ws.reintegrate_monocle_container(pad_id).is_ok() {
                lemma_reintegrate_monocle_container(ws, pad_id);
            }
        },
        Transition::NewMaximizedWindow { foreground } => {
            if ws.new_maximized_window(foreground).is_ok() {
                lemma_new_maximized_window(ws, foreground);
            }
        },
        Transition::ReintegrateMaximizedWindow { pad_id, id } => {
            if ws.reintegrate_maximized_window(pad_id, id).is_ok() {
                lemma_reintegrate_maximized_window(ws, pad_id, id);
            }
        },
        Transition::PromoteContainer => {
            if ws.promote_container().is_ok() {
                lemma_promote_container(ws);
            }
        },
        Transition::MoveWindowToContainer { target } => {
            if ws.move_window_to_container(target).is_ok() {
                lemma_move_window_to_container(ws, target);
            }
        },
        Transition::FocusContainerByWindow { hwnd } => {
            if ws.focus_container_by_window(hwnd).is_ok() {
                lemma_focus_container_by_window(ws, hwnd);
            }
        },
        Transition::FocusContainer { idx } => {},
        Transition::SwapContainers { i, j } => {
            lemma_swap_containers(ws, i, j);
        },
    }
    if ws.partitioned() {
        assert forall|hwnd: isize| #[trigger] ws.step(t).occurrences(hwnd) <= 1 by {
            assert(ws.occurrences(hwnd) <= 1);
        }
    }
}

/// The partition invariant over any sequence of transitions: where the
/// workspace is ready for each transition at the time it is taken, every
/// handle stands in as many places afterwards as before. So a handle that
/// stood in exactly one place still stands in exactly one, and no handle
/// comes to stand in two. The rings keep their focus invariant throughout.
pub proof fn lemma_run_keeps_places(ws: WorkspaceView, ts: Seq<Transition>)
    requires
        ws.wf(),
        ws.admits_all(ts),
    ensures
        ws.run(ts).wf(),
        forall|hwnd: isize| #[trigger] ws.run(ts).occurrences(hwnd) == ws.occurrences(hwnd),
        ws.partitioned() ==> ws.run(ts).partitioned(),
    decreases ts.len(),
{
    if ts.len() > 0 {
        lemma_run_keeps_places(ws, ts.drop_last());
        lemma_step_keeps_places(ws.run(ts.drop_last()), ts.last());
        let before = ws.run(ts.drop_last());
        assert forall|hwnd: isize| #[trigger] ws.run(ts).occurrences(hwnd) == ws.occurrences(
            hwnd,
        ) by {
            assert(before.step(ts.last()).occurrences(hwnd) == before.occurrences(hwnd));
        }
        if ws.partitioned() {
            assert forall|hwnd: isize| #[trigger] ws.run(ts).occurrences(hwnd) <= 1 by {
                assert(ws.occurrences(hwnd) <= 1);
            }
        }
    }
}

} // verus!
