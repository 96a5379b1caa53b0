//! The mathematical model of a workspace, and what each operation does to it.
//!
//! A [`WorkspaceView`] holds, as plain sequences and options, everything a
//! workspace keeps. Each operation of the workspace is a function here from
//! the view before to the view after, together with the platform commands
//! that the operation asks for. Where an operation creates a container, the
//! identity of the new container is a parameter of the function: the model
//! leaves open which identity is drawn.
use vstd::prelude::*;
use crate::config::poker_name;
use crate::config::WorkspaceConfig;
use crate::container::ContainerView;
use crate::error::WorkspaceError;
use crate::layout::Axis;
use crate::layout::CycleDirection;
use crate::layout::Layout;
use crate::poker::seat_containers;
use crate::poker::PokerConfig;
use crate::rect::Rect;
use crate::ring::focus_after_removal;
use crate::window::first_idx_of;
use crate::window::first_running;
use crate::window::has_handle;
use crate::window::hide_all;
use crate::window::last_idx_of;
use crate::window::restore_all;
use crate::window::runs_exe;
use crate::window::stale_among;
use crate::window::without_handles;
use crate::window::without_handle;
use crate::window::PlatformCommand;
use crate::window::Window;
use crate::window::WindowExe;

verus! {

/// Everything a workspace keeps, as mathematical values.
pub struct WorkspaceView {
    pub name: Option<Seq<char>>,
    /// The tiled containers in display order.
    pub containers: Seq<ContainerView>,
    /// The cursor of the ring of tiled containers.
    pub focused: nat,
    pub monocle_container: Option<ContainerView>,
    pub monocle_container_restore_idx: Option<nat>,
    pub maximized_window: Option<Window>,
    pub maximized_window_restore_idx: Option<nat>,
    pub floating_windows: Seq<Window>,
    pub layout: Layout,
    pub layout_rules: Seq<(usize, Layout)>,
    pub layout_flip: Option<Axis>,
    pub workspace_padding: Option<i32>,
    pub container_padding: Option<i32>,
    pub latest_layout: Seq<Rect>,
    /// The size overrides of the tiled slots, index by index.
    pub resize_dimensions: Seq<Option<Rect>>,
    pub tile: bool,
    pub is_poker_workspace: bool,
}

/// What an operation leaves behind: the workspace after it, and the commands
/// for the platform in the order in which they are due.
pub struct Outcome {
    pub workspace: WorkspaceView,
    pub commands: Seq<PlatformCommand>,
}

/// The size overrides with `slot` put at `idx`, or at the end where `idx`
/// lies past it.
pub open spec fn insert_slot(slots: Seq<Option<Rect>>, idx: nat, slot: Option<Rect>) -> Seq<
    Option<Rect>,
> {
    if idx <= slots.len() {
        slots.insert(idx as int, slot)
    } else {
        slots.push(slot)
    }
}

/// The size overrides without the one at `idx`, if there is one.
pub open spec fn remove_slot(slots: Seq<Option<Rect>>, idx: nat) -> Seq<Option<Rect>> {
    if idx < slots.len() {
        slots.remove(idx as int)
    } else {
        slots
    }
}

/// The size overrides with `count` empty slots put in at `idx`, or at the end
/// where `idx` lies past it.
pub open spec fn pad_slots(slots: Seq<Option<Rect>>, idx: nat, count: nat) -> Seq<
    Option<Rect>,
> {
    let at = if idx <= slots.len() {
        idx as int
    } else {
        slots.len() as int
    };
    slots.subrange(0, at) + Seq::new(count, |i: int| None::<Rect>) + slots.subrange(
        at,
        slots.len() as int,
    )
}

/// Whether a window of one of the containers has the handle `hwnd`.
pub open spec fn tiled_contains(containers: Seq<ContainerView>, hwnd: isize) -> bool {
    exists|i: int|
        0 <= i < containers.len() && has_handle((#[trigger] containers[i]).windows, hwnd)
}

/// Whether `i` is the last container that holds a window with the handle
/// `hwnd`.
pub open spec fn is_last_container_with(
    containers: Seq<ContainerView>,
    hwnd: isize,
    i: int,
) -> bool {
    &&& 0 <= i < containers.len()
    &&& has_handle(containers[i].windows, hwnd)
    &&& forall|j: int|
        i < j < containers.len() ==> !has_handle((#[trigger] containers[j]).windows, hwnd)
}

/// The index of the last container that holds a window with the handle
/// `hwnd`; meaningful when one does.
pub open spec fn last_container_with(containers: Seq<ContainerView>, hwnd: isize) -> int {
    choose|i: int| is_last_container_with(containers, hwnd, i)
}

/// The last container that holds a handle is unique.
pub proof fn lemma_last_container_with(containers: Seq<ContainerView>, hwnd: isize, i: int)
    requires
        is_last_container_with(containers, hwnd, i),
    ensures
        last_container_with(containers, hwnd) == i,
        tiled_contains(containers, hwnd),
{
    let k = last_container_with(containers, hwnd);
    assert(is_last_container_with(containers, hwnd, k));
    if k < i {
        assert(!has_handle(containers[i].windows, hwnd));
    }
    if i < k {
        assert(!has_handle(containers[k].windows, hwnd));
    }
}

/// The commands that hide every window of every container: container by
/// container, each in ring order.
pub open spec fn tiled_hide(containers: Seq<ContainerView>) -> Seq<PlatformCommand>
    decreases containers.len(),
{
    if containers.len() == 0 {
        Seq::empty()
    } else {
        tiled_hide(containers.drop_last()) + hide_all(containers.last().windows)
    }
}

/// The command that restores the window a container shows; nothing for a
/// container that shows none.
pub open spec fn restore_visible(container: ContainerView) -> Seq<PlatformCommand> {
    match container.focused_window() {
        Some(w) => seq![PlatformCommand::Restore(w.hwnd)],
        None => Seq::empty(),
    }
}

/// The commands that restore the visible window of every container, in
/// display order.
pub open spec fn tiled_restore(containers: Seq<ContainerView>) -> Seq<PlatformCommand>
    decreases containers.len(),
{
    if containers.len() == 0 {
        Seq::empty()
    } else {
        tiled_restore(containers.drop_last()) + restore_visible(containers.last())
    }
}

/// The handle of the first window, container by container and each in ring
/// order, that the reports assign to the program `exe`.
pub open spec fn tiled_first_running(
    containers: Seq<ContainerView>,
    executables: Seq<WindowExe>,
    exe: Seq<char>,
) -> Option<isize>
    decreases containers.len(),
{
    if containers.len() == 0 {
        None
    } else {
        match first_running(containers.first().windows, executables, exe) {
            Some(hwnd) => Some(hwnd),
            None => tiled_first_running(containers.drop_first(), executables, exe),
        }
    }
}

/// How many windows of the sequence have the handle `hwnd`.
pub open spec fn occurrences(windows: Seq<Window>, hwnd: isize) -> nat
    decreases windows.len(),
{
    if windows.len() == 0 {
        0
    } else {
        occurrences(windows.drop_last(), hwnd) + if windows.last().hwnd == hwnd {
            1nat
        } else {
            0nat
        }
    }
}

/// How many windows of the containers have the handle `hwnd`.
pub open spec fn tiled_occurrences(containers: Seq<ContainerView>, hwnd: isize) -> nat
    decreases containers.len(),
{
    if containers.len() == 0 {
        0
    } else {
        tiled_occurrences(containers.drop_last(), hwnd) + occurrences(
            containers.last().windows,
            hwnd,
        )
    }
}

/// The handles of the visible windows that are listed in `stale`, in display
/// order. The visible windows are those that the containers show.
pub open spec fn stale_visible(containers: Seq<ContainerView>, stale: Seq<isize>) -> Seq<isize>
    decreases containers.len(),
{
    if containers.len() == 0 {
        Seq::empty()
    } else {
        let before = stale_visible(containers.drop_last(), stale);
        match containers.last().focused_window() {
            Some(w) => if stale.contains(w.hwnd) {
                before.push(w.hwnd)
            } else {
                before
            },
            None => before,
        }
    }
}

/// What a reaping pass leaves behind: the workspace after it, the commands
/// that are due, the number of windows that were found stale, and the number
/// of empty containers that were swept out at its end.
pub struct Reaped {
    pub workspace: WorkspaceView,
    pub commands: Seq<PlatformCommand>,
    pub windows: nat,
    pub containers: nat,
}

/// Whether `i` is the last tiled slot whose rectangle in `layout` contains
/// the point `(x, y)`.
pub open spec fn is_last_hit(layout: Seq<Rect>, slots: nat, x: int, y: int, i: int) -> bool {
    &&& 0 <= i < slots
    &&& i < layout.len()
    &&& layout[i].spec_contains_point(x, y)
    &&& forall|j: int|
        i < j < slots && j < layout.len() ==> !(#[trigger] layout[j]).spec_contains_point(x, y)
}

/// Whether the rectangle of some tiled slot contains the point `(x, y)`.
pub open spec fn any_hit(layout: Seq<Rect>, slots: nat, x: int, y: int) -> bool {
    exists|i: int|
        0 <= i < slots && i < layout.len() && (#[trigger] layout[i]).spec_contains_point(x, y)
}

impl WorkspaceView {
    /// The validity of a workspace: the ring of containers and the ring of
    /// windows of every container, the monocle container included, keep the
    /// focus invariant.
    pub open spec fn wf(self) -> bool {
        &&& if self.containers.len() == 0 {
            self.focused == 0
        } else {
            self.focused < self.containers.len()
        }
        &&& forall|i: int| 0 <= i < self.containers.len() ==> (#[trigger] self.containers[i]).wf()
        &&& self.monocle_container matches Some(c) ==> c.wf()
    }

    /// In how many places of the workspace a window with the handle `hwnd`
    /// stands: in the tiled containers, in the monocle container, in the
    /// maximized slot and among the floating windows.
    pub open spec fn occurrences(self, hwnd: isize) -> nat {
        tiled_occurrences(self.containers, hwnd) + (match self.monocle_container {
            Some(c) => occurrences(c.windows, hwnd),
            None => 0,
        }) + (match self.maximized_window {
            Some(w) => if w.hwnd == hwnd {
                1nat
            } else {
                0nat
            },
            None => 0,
        }) + occurrences(self.floating_windows, hwnd)
    }

    /// The partition invariant: no handle stands in more than one place.
    pub open spec fn partitioned(self) -> bool {
        forall|hwnd: isize| #[trigger] self.occurrences(hwnd) <= 1
    }

    /// The size overrides are as many as the tiled containers.
    pub open spec fn aligned(self) -> bool {
        self.resize_dimensions.len() == self.containers.len()
    }

    /// No tiled container is without windows, and neither is the monocle
    /// container.
    pub open spec fn no_empty_containers(self) -> bool {
        &&& forall|i: int|
            0 <= i < self.containers.len() ==> !(#[trigger] self.containers[i]).is_empty()
        &&& self.monocle_container matches Some(c) ==> !c.is_empty()
    }

    /// The focused container, if the cursor points at one.
    pub open spec fn focused_container(self) -> Option<ContainerView> {
        if self.focused < self.containers.len() {
            Some(self.containers[self.focused as int])
        } else {
            None
        }
    }

    /// Whether the handle is that of a window that the workspace manages: a
    /// tiled window, the maximized window, a window of the monocle container
    /// or a floating window.
    pub open spec fn contains_managed_window(self, hwnd: isize) -> bool {
        ||| tiled_contains(self.containers, hwnd)
        ||| self.maximized_window matches Some(w) && w.hwnd == hwnd
        ||| self.monocle_container matches Some(c) && has_handle(c.windows, hwnd)
        ||| has_handle(self.floating_windows, hwnd)
    }

    /// Whether the handle is that of any window of the workspace: tiled,
    /// maximized, monocle or floating.
    pub open spec fn contains_window(self, hwnd: isize) -> bool {
        ||| tiled_contains(self.containers, hwnd)
        ||| self.maximized_window matches Some(w) && w.hwnd == hwnd
        ||| self.monocle_container matches Some(c) && has_handle(c.windows, hwnd)
        ||| has_handle(self.floating_windows, hwnd)
    }

    /// Whether the handle is that of the maximized window or of a window of
    /// the monocle container.
    pub open spec fn is_monocle_or_maximized(self, hwnd: isize) -> bool {
        ||| self.maximized_window matches Some(w) && w.hwnd == hwnd
        ||| self.monocle_container matches Some(c) && has_handle(c.windows, hwnd)
    }

    /// The index of the last tiled container that holds the handle.
    pub open spec fn container_idx_for_window(self, hwnd: isize) -> Option<nat> {
        if tiled_contains(self.containers, hwnd) {
            Some(last_container_with(self.containers, hwnd) as nat)
        } else {
            None
        }
    }

    /// The container that holds the handle: the last tiled container that
    /// does, else the monocle container if it does. The maximized window and
    /// the floating windows stand in no container.
    pub open spec fn container_for_window(self, hwnd: isize) -> Option<ContainerView> {
        if tiled_contains(self.containers, hwnd) {
            Some(self.containers[last_container_with(self.containers, hwnd)])
        } else if self.monocle_container matches Some(c) && has_handle(c.windows, hwnd) {
            self.monocle_container
        } else {
            None
        }
    }

    /// The handle of the first window that the reports assign to the program
    /// `exe`, searching the tiled containers, then the maximized window, then
    /// the monocle container, then the floating windows.
    pub open spec fn hwnd_from_exe(self, exe: Seq<char>, executables: Seq<WindowExe>) -> Option<
        isize,
    > {
        if let Some(hwnd) = tiled_first_running(self.containers, executables, exe) {
            Some(hwnd)
        } else if self.maximized_window matches Some(w) && runs_exe(executables, w.hwnd, exe) {
            Some(self.maximized_window->0.hwnd)
        } else if self.monocle_container matches Some(c) && first_running(
            c.windows,
            executables,
            exe,
        ).is_some() {
            first_running(self.monocle_container->0.windows, executables, exe)
        } else {
            first_running(self.floating_windows, executables, exe)
        }
    }

    /// The last tiled slot whose rectangle in the latest layout contains the
    /// point.
    pub open spec fn container_idx_from_point(self, x: int, y: int) -> Option<nat> {
        if any_hit(self.latest_layout, self.containers.len(), x, y) {
            Some(
                (choose|i: int|
                    is_last_hit(self.latest_layout, self.containers.len(), x, y, i)) as nat,
            )
        } else {
            None
        }
    }

    /// The window each tiled container shows, in display order.
    pub open spec fn visible_windows(self) -> Seq<Option<Window>> {
        Seq::new(self.containers.len(), |i: int| self.containers[i].focused_window())
    }

    /// The index one step from the focused one in the given direction,
    /// wrapping round; none for an empty ring.
    pub open spec fn new_idx_for_cycle_direction(self, direction: CycleDirection) -> Option<nat> {
        if self.containers.len() == 0 {
            None
        } else {
            Some(direction.step_from(self.focused, self.containers.len()))
        }
    }

    /// The commands that take every window of the workspace off the screen:
    /// the tiled windows, the maximized one, those of the monocle container,
    /// the floating ones.
    pub open spec fn hide_windows(self) -> Seq<PlatformCommand> {
        tiled_hide(self.containers) + (match self.maximized_window {
            Some(w) => seq![PlatformCommand::Hide(w.hwnd)],
            None => Seq::empty(),
        }) + (match self.monocle_container {
            Some(c) => hide_all(c.windows),
            None => Seq::empty(),
        }) + hide_all(self.floating_windows)
    }

    /// The commands that put the workspace back on the screen: the visible
    /// window of every tiled container is restored, the maximized window is
    /// maximized, the windows of the monocle container and the floating ones
    /// are restored, and last the visible window of the focused container is
    /// given the input focus, unless a window is maximized.
    pub open spec fn restore(self, mouse_follows_focus: bool) -> Seq<PlatformCommand> {
        tiled_restore(self.containers) + (match self.maximized_window {
            Some(w) => seq![PlatformCommand::Maximize(w.hwnd)],
            None => Seq::empty(),
        }) + (match self.monocle_container {
            Some(c) => restore_all(c.windows),
            None => Seq::empty(),
        }) + restore_all(self.floating_windows) + (match self.to_focus() {
            Some(w) => seq![PlatformCommand::Focus(w.hwnd, mouse_follows_focus)],
            None => Seq::empty(),
        })
    }

    /// The window that gets the input focus when the workspace is restored.
    pub open spec fn to_focus(self) -> Option<Window> {
        if self.maximized_window.is_some() {
            None
        } else {
            match self.focused_container() {
                Some(c) => c.focused_window(),
                None => None,
            }
        }
    }

    /// The cursor of the ring of containers at `idx`; an index past the last
    /// container is ignored.
    pub open spec fn focus_container(self, idx: nat) -> WorkspaceView {
        if idx < self.containers.len() {
            WorkspaceView { focused: idx, ..self }
        } else {
            self
        }
    }

    /// The container at `idx` leaves the ring, and the size override at `idx`
    /// leaves with it. The cursor moves as [`focus_after_removal`] says.
    pub open spec fn remove_container(self, idx: nat) -> WorkspaceView {
        if idx < self.containers.len() {
            WorkspaceView {
                containers: self.containers.remove(idx as int),
                focused: focus_after_removal(self.focused, idx),
                resize_dimensions: remove_slot(self.resize_dimensions, idx),
                ..self
            }
        } else {
            WorkspaceView { resize_dimensions: remove_slot(self.resize_dimensions, idx), ..self }
        }
    }

    /// `container` enters the ring at `idx`, with an empty size override at
    /// the same index. The cursor keeps its index.
    pub open spec fn insert_container_at_idx(
        self,
        idx: nat,
        container: ContainerView,
    ) -> WorkspaceView {
        WorkspaceView {
            containers: self.containers.insert(idx as int, container),
            resize_dimensions: insert_slot(self.resize_dimensions, idx, None),
            ..self
        }
    }

    /// `container` enters the ring at the end, with an empty size override,
    /// and gets the focus.
    pub open spec fn add_container(self, container: ContainerView) -> WorkspaceView {
        WorkspaceView {
            focused: self.containers.len(),
            ..self.insert_container_at_idx(self.containers.len(), container)
        }
    }

    /// The containers at `i` and `j` change places, and the cursor moves to
    /// `j`.
    pub open spec fn swap_containers(self, i: nat, j: nat) -> WorkspaceView {
        WorkspaceView {
            containers: self.containers.update(i as int, self.containers[j as int]).update(
                j as int,
                self.containers[i as int],
            ),
            focused: j,
            ..self
        }
    }

    /// The ring grown to `len` containers by appending empty containers of
    /// the identity `pad_id`, each with an empty size override at its index.
    /// A ring that has `len` containers or more stays as it is.
    pub open spec fn pad_to(self, len: nat, pad_id: Seq<char>) -> WorkspaceView {
        if len > self.containers.len() {
            let count = (len - self.containers.len()) as nat;
            WorkspaceView {
                containers: self.containers + Seq::new(
                    count,
                    |i: int| ContainerView::empty(pad_id),
                ),
                resize_dimensions: pad_slots(
                    self.resize_dimensions,
                    self.containers.len(),
                    count,
                ),
                ..self
            }
        } else {
            self
        }
    }

    /// The index at which a container for a new window enters the ring:
    /// right after the focused one.
    pub open spec fn next_idx(self) -> nat {
        if self.containers.len() == 0 {
            0
        } else {
            self.focused + 1
        }
    }

    /// A new container of the identity `id`, holding `window` alone, enters
    /// the ring at `idx` and gets the focus.
    pub open spec fn place_window(self, idx: nat, window: Window, id: Seq<char>) -> WorkspaceView {
        WorkspaceView {
            focused: idx,
            ..self.insert_container_at_idx(idx, ContainerView::single(id, window))
        }
    }

    /// A new container for `window` enters the ring right after the focused
    /// container and gets the focus.
    pub open spec fn new_container_for_window(self, window: Window, id: Seq<char>) -> WorkspaceView {
        self.place_window(self.next_idx(), window, id)
    }

    /// The workspace after the focused window of the focused container has
    /// left its container: the container stays, without the window, or
    /// leaves the ring where the window was its only one. The commands show
    /// the window that the remaining container now shows.
    pub open spec fn release_focused_window(self) -> Outcome {
        let source = self.containers[self.focused as int];
        let rest = source.remove_focused_window();
        if rest.is_empty() {
            Outcome { workspace: self.remove_container(self.focused), commands: Seq::empty() }
        } else {
            Outcome {
                workspace: WorkspaceView {
                    containers: self.containers.update(self.focused as int, rest),
                    ..self
                },
                commands: rest.load_focused_window(),
            }
        }
    }

    /// Why the focused window of the focused container cannot be taken, if it
    /// cannot.
    pub open spec fn focused_window_error(self) -> Option<WorkspaceError> {
        match self.focused_container() {
            None => Some(WorkspaceError::NoContainer),
            Some(c) => if c.focused_window().is_none() {
                Some(WorkspaceError::NoWindow)
            } else {
                None
            },
        }
    }

    /// The window with the handle `hwnd` leaves the workspace. It is looked
    /// for among the floating windows, then in the monocle container, then in
    /// the maximized slot, then in the tiled containers. A container that it
    /// leaves empty leaves with it.
    pub open spec fn remove_window(self, hwnd: isize) -> Result<Outcome, WorkspaceError> {
        if has_handle(self.floating_windows, hwnd) {
            Ok(
                Outcome {
                    workspace: WorkspaceView {
                        floating_windows: without_handle(self.floating_windows, hwnd),
                        ..self
                    },
                    commands: Seq::empty(),
                },
            )
        } else if self.monocle_container matches Some(c) && has_handle(c.windows, hwnd) {
            let c = self.monocle_container->0;
            let rest = c.remove_window_by_idx(first_idx_of(c.windows, hwnd) as nat);
            Ok(
                Outcome {
                    workspace: if rest.is_empty() {
                        WorkspaceView {
                            monocle_container: None,
                            monocle_container_restore_idx: None,
                            ..self
                        }
                    } else {
                        WorkspaceView { monocle_container: Some(rest), ..self }
                    },
                    commands: Seq::empty(),
                },
            )
        } else if self.maximized_window matches Some(w) && w.hwnd == hwnd {
            Ok(
                Outcome {
                    workspace: WorkspaceView {
                        maximized_window: None,
                        maximized_window_restore_idx: None,
                        ..self
                    },
                    commands: seq![PlatformCommand::Unmaximize(hwnd)],
                },
            )
        } else if tiled_contains(self.containers, hwnd) {
            let idx = last_container_with(self.containers, hwnd);
            let c = self.containers[idx];
            let rest = c.remove_window_by_idx(first_idx_of(c.windows, hwnd) as nat);
            Ok(
                if rest.is_empty() {
                    Outcome {
                        workspace: self.remove_container(idx as nat),
                        commands: Seq::empty(),
                    }
                } else {
                    Outcome {
                        workspace: WorkspaceView {
                            containers: self.containers.update(idx, rest),
                            ..self
                        },
                        commands: rest.load_focused_window(),
                    }
                },
            )
        } else {
            Err(WorkspaceError::NoWindow)
        }
    }

    /// The focus moves to the last tiled container that holds the window
    /// with the handle `hwnd`, and within it to the last window with that
    /// handle.
    pub open spec fn focus_container_by_window(self, hwnd: isize) -> Result<
        WorkspaceView,
        WorkspaceError,
    > {
        if tiled_contains(self.containers, hwnd) {
            let idx = last_container_with(self.containers, hwnd);
            let c = self.containers[idx];
            Ok(
                WorkspaceView {
                    containers: self.containers.update(
                        idx,
                        c.focus_window(last_idx_of(c.windows, hwnd) as nat),
                    ),
                    focused: idx as nat,
                    ..self
                },
            )
        } else {
            Err(WorkspaceError::NoContainerOrWindow)
        }
    }

    /// The focused container moves to the primary slot of the layout, with
    /// its size override, and keeps the focus.
    pub open spec fn promote_container(self) -> Result<WorkspaceView, WorkspaceError> {
        if self.focused >= self.containers.len() {
            Err(WorkspaceError::NoContainer)
        } else {
            match self.layout.spec_primary_slot_index() {
                None => Err(WorkspaceError::NoPrimaryColumn),
                Some(primary) => if primary >= self.containers.len() {
                    Err(WorkspaceError::NoPrimarySlot)
                } else {
                    let primary = primary as nat;
                    let slot = if self.focused < self.resize_dimensions.len() {
                        self.resize_dimensions[self.focused as int]
                    } else {
                        None
                    };
                    let rest = self.remove_container(self.focused);
                    Ok(
                        WorkspaceView {
                            containers: rest.containers.insert(
                                primary as int,
                                self.containers[self.focused as int],
                            ),
                            resize_dimensions: insert_slot(rest.resize_dimensions, primary, slot),
                            focused: primary,
                            ..rest
                        },
                    )
                },
            }
        }
    }

    /// The focused window of the focused container moves to the container
    /// at `target`, which is counted after the source container has left the
    /// ring, where the move leaves it empty. The target container shows the
    /// window and gets the focus.
    pub open spec fn move_window_to_container(self, target: nat) -> Result<
        Outcome,
        WorkspaceError,
    > {
        match self.focused_window_error() {
            Some(e) => Err(e),
            None => {
                let source = self.containers[self.focused as int];
                let window = source.windows[source.focused as int];
                let released = self.release_focused_window();
                let adjusted = if source.remove_focused_window().is_empty() && self.focused
                    < target {
                    (target - 1) as nat
                } else {
                    target
                };
                if adjusted >= released.workspace.containers.len() {
                    Err(WorkspaceError::NoContainer)
                } else {
                    let destination = released.workspace.containers[adjusted as int].add_window(
                        window,
                    );
                    Ok(
                        Outcome {
                            workspace: WorkspaceView {
                                containers: released.workspace.containers.update(
                                    adjusted as int,
                                    destination,
                                ),
                                focused: adjusted,
                                ..released.workspace
                            },
                            commands: released.commands + destination.load_focused_window(),
                        },
                    )
                }
            },
        }
    }

    /// The focused window of the focused container moves to a container of
    /// its own, of the identity `id`, right after the index that had the
    /// focus, and gets the focus.
    pub open spec fn new_container_for_focused_window(self, id: Seq<char>) -> Result<
        Outcome,
        WorkspaceError,
    > {
        match self.focused_window_error() {
            Some(e) => Err(e),
            None => {
                let source = self.containers[self.focused as int];
                let window = source.windows[source.focused as int];
                let released = self.release_focused_window();
                let idx = if self.focused + 1 <= released.workspace.containers.len() {
                    self.focused + 1
                } else {
                    released.workspace.containers.len()
                };
                Ok(
                    Outcome {
                        workspace: released.workspace.place_window(idx, window, id),
                        commands: released.commands,
                    },
                )
            },
        }
    }

    /// The last floating window with the handle `foreground` leaves the
    /// floating windows.
    pub open spec fn remove_focused_floating_window(self, foreground: isize) -> WorkspaceView {
        if has_handle(self.floating_windows, foreground) {
            WorkspaceView {
                floating_windows: self.floating_windows.remove(
                    last_idx_of(self.floating_windows, foreground),
                ),
                ..self
            }
        } else {
            self
        }
    }

    /// The floating window with the handle `foreground` moves to a new
    /// container of the identity `id`, which enters the ring at the focused
    /// index.
    pub open spec fn new_container_for_floating_window(
        self,
        foreground: isize,
        id: Seq<char>,
    ) -> Result<WorkspaceView, WorkspaceError> {
        if has_handle(self.floating_windows, foreground) {
            let window = self.floating_windows[last_idx_of(self.floating_windows, foreground)];
            Ok(
                self.remove_focused_floating_window(foreground).insert_container_at_idx(
                    self.focused,
                    ContainerView::single(id, window),
                ),
            )
        } else {
            Err(WorkspaceError::NoFloatingWindow)
        }
    }

    /// The workspace after the focused window of the monocle container has
    /// left it: the monocle container stays, without the window, or the
    /// monocle slot is cleared where the window was its only one.
    pub open spec fn release_monocle_window(self) -> Outcome {
        let rest = self.monocle_container->0.remove_focused_window();
        if rest.is_empty() {
            Outcome {
                workspace: WorkspaceView {
                    monocle_container: None,
                    monocle_container_restore_idx: None,
                    ..self
                },
                commands: Seq::empty(),
            }
        } else {
            Outcome {
                workspace: WorkspaceView { monocle_container: Some(rest), ..self },
                commands: rest.load_focused_window(),
            }
        }
    }

    /// A window starts to float: the maximized window if there is one, else
    /// the focused window of the monocle container if there is one, else the
    /// focused window of the focused tiled container.
    pub open spec fn new_floating_window(self) -> Result<Outcome, WorkspaceError> {
        if let Some(window) = self.maximized_window {
            Ok(
                Outcome {
                    workspace: WorkspaceView {
                        maximized_window: None,
                        maximized_window_restore_idx: None,
                        floating_windows: self.floating_windows.push(window),
                        ..self
                    },
                    commands: Seq::empty(),
                },
            )
        } else if let Some(c) = self.monocle_container {
            match c.focused_window() {
                None => Err(WorkspaceError::NoWindow),
                Some(window) => {
                    let released = self.release_monocle_window();
                    Ok(
                        Outcome {
                            workspace: WorkspaceView {
                                floating_windows: self.floating_windows.push(window),
                                ..released.workspace
                            },
                            commands: released.commands,
                        },
                    )
                },
            }
        } else {
            match self.focused_window_error() {
                Some(e) => Err(e),
                None => {
                    let source = self.containers[self.focused as int];
                    let released = self.release_focused_window();
                    Ok(
                        Outcome {
                            workspace: WorkspaceView {
                                floating_windows: self.floating_windows.push(
                                    source.windows[source.focused as int],
                                ),
                                ..released.workspace
                            },
                            commands: released.commands,
                        },
                    )
                },
            }
        }
    }

    /// The focused container leaves the ring, whole, for the monocle slot.
    /// Its index is kept for its return, and so is its size override.
    pub open spec fn new_monocle_container(self) -> Result<Outcome, WorkspaceError> {
        if self.focused >= self.containers.len() {
            Err(WorkspaceError::NoContainer)
        } else {
            let c = self.containers[self.focused as int];
            Ok(
                Outcome {
                    workspace: WorkspaceView {
                        containers: self.containers.remove(self.focused as int),
                        focused: focus_after_removal(self.focused, self.focused),
                        monocle_container: Some(c),
                        monocle_container_restore_idx: Some(self.focused),
                        ..self
                    },
                    commands: c.load_focused_window(),
                },
            )
        }
    }

    /// The monocle container returns to the ring at its restore index and
    /// gets the focus. A ring that has become shorter than the restore index
    /// is first grown to it with empty containers of the identity `pad_id`.
    pub open spec fn reintegrate_monocle_container(self, pad_id: Seq<char>) -> Result<
        Outcome,
        WorkspaceError,
    > {
        match self.monocle_container_restore_idx {
            None => Err(WorkspaceError::NoMonocleRestoreIdx),
            Some(idx) => match self.monocle_container {
                None => Err(WorkspaceError::NoMonocleContainer),
                Some(c) => {
                    let padded = self.pad_to(idx, pad_id);
                    Ok(
                        Outcome {
                            workspace: WorkspaceView {
                                containers: padded.containers.insert(idx as int, c),
                                focused: idx,
                                monocle_container: None,
                                monocle_container_restore_idx: None,
                                ..padded
                            },
                            commands: c.load_focused_window(),
                        },
                    )
                },
            },
        }
    }

    /// A window is maximized: the floating window with the handle
    /// `foreground` if there is one, else the focused window of the monocle
    /// container if there is one, else the focused window of the focused
    /// tiled container. The index to which it returns is kept: the focused
    /// index, or for a monocle window the restore index of the monocle
    /// container.
    pub open spec fn new_maximized_window(self, foreground: isize) -> Result<
        Outcome,
        WorkspaceError,
    > {
        if has_handle(self.floating_windows, foreground) {
            let window = self.floating_windows[last_idx_of(self.floating_windows, foreground)];
            Ok(
                Outcome {
                    workspace: WorkspaceView {
                        maximized_window: Some(window),
                        maximized_window_restore_idx: Some(self.focused),
                        ..self.remove_focused_floating_window(foreground)
                    },
                    commands: seq![PlatformCommand::Maximize(window.hwnd)],
                },
            )
        } else if let Some(c) = self.monocle_container {
            match c.focused_window() {
                None => Err(WorkspaceError::NoWindow),
                Some(window) => {
                    let released = self.release_monocle_window();
                    Ok(
                        Outcome {
                            workspace: WorkspaceView {
                                maximized_window: Some(window),
                                maximized_window_restore_idx: self.monocle_container_restore_idx,
                                ..released.workspace
                            },
                            commands: released.commands.push(
                                PlatformCommand::Maximize(window.hwnd),
                            ),
                        },
                    )
                },
            }
        } else {
            match self.focused_window_error() {
                Some(e) => Err(e),
                None => {
                    let source = self.containers[self.focused as int];
                    let window = source.windows[source.focused as int];
                    let released = self.release_focused_window();
                    Ok(
                        Outcome {
                            workspace: WorkspaceView {
                                maximized_window: Some(window),
                                maximized_window_restore_idx: Some(self.focused),
                                focused: focus_after_removal(self.focused, self.focused),
                                ..released.workspace
                            },
                            commands: released.commands.push(
                                PlatformCommand::Maximize(window.hwnd),
                            ),
                        },
                    )
                },
            }
        }
    }

    /// The maximized window returns to the ring, in a new container of the
    /// identity `id` at its restore index, and gets the focus. A ring that
    /// has become shorter than the restore index is first grown to it with
    /// empty containers of the identity `pad_id`.
    pub open spec fn reintegrate_maximized_window(
        self,
        pad_id: Seq<char>,
        id: Seq<char>,
    ) -> Result<Outcome, WorkspaceError> {
        match self.maximized_window_restore_idx {
            None => Err(WorkspaceError::NoMaximizedRestoreIdx),
            Some(idx) => match self.maximized_window {
                None => Err(WorkspaceError::NoMaximizedWindow),
                Some(window) => {
                    let restored = self.pad_to(idx, pad_id).place_window(idx, window, id);
                    Ok(
                        Outcome {
                            workspace: WorkspaceView {
                                maximized_window: None,
                                maximized_window_restore_idx: None,
                                ..restored
                            },
                            commands: ContainerView::single(id, window).load_focused_window(),
                        },
                    )
                },
            },
        }
    }

    /// The windows with the handles `hwnds` leave the workspace one after the
    /// other, each as [`Self::remove_window`] says. A handle that no window
    /// has any more is passed over.
    pub open spec fn remove_windows(self, hwnds: Seq<isize>) -> Outcome
        decreases hwnds.len(),
    {
        if hwnds.len() == 0 {
            Outcome { workspace: self, commands: Seq::empty() }
        } else {
            let before = self.remove_windows(hwnds.drop_last());
            match before.workspace.remove_window(hwnds.last()) {
                Ok(step) => Outcome {
                    workspace: step.workspace,
                    commands: before.commands + step.commands,
                },
                Err(_) => before,
            }
        }
    }

    /// The empty containers among the first `upto` leave the ring, the last
    /// of them first, each as [`Self::remove_container`] says.
    pub open spec fn purge_from(self, upto: nat) -> WorkspaceView
        decreases upto,
    {
        if upto == 0 {
            self
        } else {
            let idx = (upto - 1) as nat;
            let next = if idx < self.containers.len() && self.containers[idx as int].is_empty() {
                self.remove_container(idx)
            } else {
                self
            };
            next.purge_from((upto - 1) as nat)
        }
    }

    /// Every empty container leaves the ring, with the size override at its
    /// index.
    pub open spec fn purge_empty_containers(self) -> WorkspaceView {
        self.purge_from(self.containers.len())
    }

    /// A reaping pass. `stale` lists the handles that the platform no longer
    /// knows. The visible tiled windows among them are removed, then the
    /// floating windows among them, then every container without windows.
    pub open spec fn reap_orphans(self, stale: Seq<isize>) -> Reaped {
        let visible = stale_visible(self.containers, stale);
        let floating = stale_among(self.floating_windows, stale);
        let removed = self.remove_windows(visible);
        let swept = WorkspaceView {
            floating_windows: without_handles(removed.workspace.floating_windows, floating),
            ..removed.workspace
        };
        let purged = swept.purge_empty_containers();
        Reaped {
            workspace: purged,
            commands: removed.commands,
            windows: visible.len() + floating.len(),
            containers: (swept.containers.len() - purged.containers.len()) as nat,
        }
    }

    /// The workspace takes over a static configuration: its name, and with
    /// it whether it is a poker workspace; the paddings that the
    /// configuration gives; the layout that it selects, and whether the
    /// workspace tiles at all, which it does exactly when the configuration
    /// selects a layout; and the layout rules.
    pub open spec fn load_static_config(self, config: WorkspaceConfig) -> WorkspaceView {
        WorkspaceView {
            name: Some(config.name@),
            is_poker_workspace: config.name@ == poker_name(),
            container_padding: if config.container_padding.is_some() {
                config.container_padding
            } else {
                self.container_padding
            },
            workspace_padding: if config.workspace_padding.is_some() {
                config.workspace_padding
            } else {
                self.workspace_padding
            },
            layout: match config.selected_layout() {
                Some(layout) => layout,
                None => self.layout,
            },
            tile: config.selected_layout().is_some(),
            layout_rules: config.selected_rules(self.layout_rules),
            ..self
        }
    }

    /// The commands that arrange a poker workspace by its seating chart:
    /// the visible window of each tiled container is seated, in display
    /// order. A workspace that is no poker workspace asks for nothing.
    pub open spec fn update(self, poker: PokerConfig) -> Result<
        Seq<PlatformCommand>,
        WorkspaceError,
    > {
        if !self.is_poker_workspace {
            Ok(Seq::empty())
        } else {
            match seat_containers(self.containers, self.containers.len(), poker) {
                Some(pass) => Ok(pass.commands),
                None => Err(WorkspaceError::PositionOutOfRange),
            }
        }
    }
}

} // verus!
