//! What can be asked of a workspace without changing it.
use vstd::prelude::*;
use crate::container::index_view;
use crate::container::Container;
use crate::layout::Axis;
use crate::layout::CycleDirection;
use crate::layout::Layout;
use crate::layout::OperationDirection;
use crate::model::any_hit;
use crate::model::is_last_container_with;
use crate::model::is_last_hit;
use crate::model::lemma_last_container_with;
use crate::model::tiled_contains;
use crate::model::tiled_first_running;
use crate::window::contains_handle;
use crate::window::first_running_window;
use crate::window::ring_first_running_window;
use crate::window::has_handle;
use crate::window::window_runs_exe;
use crate::window::Window;
use crate::window::WindowExe;
use crate::workspace::Workspace;

verus! {

impl Workspace {
    /// The index of the last tiled container that holds a window with the
    /// handle `hwnd`.
    pub fn container_idx_for_window(&self, hwnd: isize) -> (r: Option<usize>)
        ensures
            index_view(r) == self@.container_idx_for_window(hwnd),
            r matches Some(i) ==> is_last_container_with(self@.containers, hwnd, i as int),
    {
        let containers = self.containers.elements();
        let mut found: Option<usize> = None;
        let mut i: usize = 0;
        while i < containers.len()
            invariant
                i <= containers.len(),
                containers@ == self.containers@,
                found.is_none() ==> forall|j: int|
                    0 <= j < i ==> !has_handle((#[trigger] self@.containers[j]).windows, hwnd),
                found matches Some(k) ==> k < i && has_handle(self@.containers[k as int].windows, hwnd)
                    && forall|j: int|
                    k < j < i ==> !has_handle((#[trigger] self@.containers[j]).windows, hwnd),
            decreases containers.len() - i,
        {
            if containers[i].contains_window(hwnd) {
                found = Some(i);
            }
            i = i + 1;
        }
        proof {
            if let Some(k) = found {
                lemma_last_container_with(self@.containers, hwnd, k as int);
            }
        }
        found
    }

    /// Whether a window of a tiled container has the handle `hwnd`.
    fn tiled_contains_window(&self, hwnd: isize) -> (b: bool)
        ensures
            b == tiled_contains(self@.containers, hwnd),
    {
        let containers = self.containers.elements();
        let mut i: usize = 0;
        while i < containers.len()
            invariant
                i <= containers.len(),
                containers@ == self.containers@,
                forall|j: int|
                    0 <= j < i ==> !has_handle((#[trigger] self@.containers[j]).windows, hwnd),
            decreases containers.len() - i,
        {
            if containers[i].contains_window(hwnd) {
                assert(has_handle(self@.containers[i as int].windows, hwnd));
                return true;
            }
            i = i + 1;
        }
        false
    }

    /// Whether the handle is that of the maximized window or of a window of
    /// the monocle container.
    fn monocle_or_maximized(&self, hwnd: isize) -> (b: bool)
        ensures
            b == self@.is_monocle_or_maximized(hwnd),
    {
        if let Some(window) = self.maximized_window {
            if hwnd == window.hwnd {
                return true;
            }
        }
        if let Some(container) = &self.monocle_container {
            if container.contains_window(hwnd) {
                return true;
            }
        }
        false
    }

    /// Whether `hwnd` is the handle of a window that the workspace manages.
    /// The tiled containers are searched first, then the maximized window,
    /// then the monocle container, then the floating windows; the search
    /// ends at the first match.
    pub fn contains_managed_window(&self, hwnd: isize) -> (b: bool)
        ensures
            b == self@.contains_managed_window(hwnd),
            b == self@.contains_window(hwnd),
    {
        self.tiled_contains_window(hwnd) || self.monocle_or_maximized(hwnd) || contains_handle(
            &self.floating_windows,
            hwnd,
        )
    }

    /// Whether `hwnd` is the handle of any window of the workspace. The
    /// tiled containers are searched first, then the maximized window, then
    /// the monocle container, then the floating windows; the search ends at
    /// the first match.
    pub fn contains_window(&self, hwnd: isize) -> (b: bool)
        ensures
            b == self@.contains_window(hwnd),
    {
        self.tiled_contains_window(hwnd) || self.monocle_or_maximized(hwnd) || contains_handle(
            &self.floating_windows,
            hwnd,
        )
    }

    /// Whether `foreground`, the handle of the window that has the input
    /// focus, is that of the maximized window or of a window of the monocle
    /// container.
    pub fn is_focused_window_monocle_or_maximized(&self, foreground: isize) -> (b: bool)
        ensures
            b == self@.is_monocle_or_maximized(foreground),
    {
        self.monocle_or_maximized(foreground)
    }

    /// The container that holds a window with the handle `hwnd`: the last
    /// tiled container that does, else the monocle container if it does.
    /// The maximized window and the floating windows stand in no container.
    pub fn container_for_window(&self, hwnd: isize) -> (r: Option<&Container>)
        ensures
            match r {
                Some(c) => self@.container_for_window(hwnd) == Some(c@),
                None => self@.container_for_window(hwnd).is_none(),
            },
    {
        if let Some(idx) = self.container_idx_for_window(hwnd) {
            return self.containers.get(idx);
        }
        if let Some(container) = &self.monocle_container {
            if container.contains_window(hwnd) {
                return Some(container);
            }
        }
        None
    }

    /// The handle of the first window that the reports in `executables`
    /// assign to the program `exe`. The tiled containers are searched first,
    /// then the maximized window, then the monocle container, then the
    /// floating windows.
    pub fn hwnd_from_exe(&self, exe: &str, executables: &Vec<WindowExe>) -> (r: Option<isize>)
        ensures
            r == self@.hwnd_from_exe(exe@, executables@),
    {
        let name = exe.to_owned();
        let containers = self.containers.elements();
        let mut i: usize = 0;
        assert(self@.containers.skip(0) =~= self@.containers);
        while i < containers.len()
            invariant
                i <= containers.len(),
                containers@ == self.containers@,
                name@ == exe@,
                tiled_first_running(self@.containers, executables@, exe@) == tiled_first_running(
                    self@.containers.skip(i as int),
                    executables@,
                    exe@,
                ),
            decreases containers.len() - i,
        {
            let found = ring_first_running_window(containers[i].windows(), executables, &name);
            proof {
                let rest = self@.containers.skip(i as int);
                assert(rest.first() == self@.containers[i as int]);
                assert(rest.drop_first() =~= self@.containers.skip(i as int + 1));
            }
            if found.is_some() {
                return found;
            }
            i = i + 1;
        }
        if let Some(window) = self.maximized_window {
            if window_runs_exe(executables, window.hwnd, &name) {
                return Some(window.hwnd);
            }
        }
        if let Some(container) = &self.monocle_container {
            let found = ring_first_running_window(container.windows(), executables, &name);
            if found.is_some() {
                return found;
            }
        }
        first_running_window(&self.floating_windows, executables, &name)
    }

    /// The last tiled slot whose rectangle in the latest layout contains
    /// `point`, the position of the pointer.
    pub fn container_idx_from_current_point(&self, point: (i32, i32)) -> (r: Option<usize>)
        ensures
            index_view(r) == self@.container_idx_from_point(point.0 as int, point.1 as int),
            r matches Some(i) ==> is_last_hit(
                self@.latest_layout,
                self@.containers.len(),
                point.0 as int,
                point.1 as int,
                i as int,
            ),
    {
        let slots = self.containers.len();
        assert(slots == self@.containers.len());
        let ghost x = point.0 as int;
        let ghost y = point.1 as int;
        let mut found: Option<usize> = None;
        let mut i: usize = 0;
        while i < slots && i < self.latest_layout.len()
            invariant
                i <= slots,
                i <= self.latest_layout.len(),
                x == point.0 as int,
                y == point.1 as int,
                found.is_none() ==> forall|j: int|
                    0 <= j < i ==> !(#[trigger] self.latest_layout@[j]).spec_contains_point(x, y),
                found matches Some(k) ==> k < i && self.latest_layout@[k as int].spec_contains_point(
                    x,
                    y,
                ) && forall|j: int|
                    k < j < i ==> !(#[trigger] self.latest_layout@[j]).spec_contains_point(x, y),
            decreases slots - i,
        {
            if self.latest_layout[i].contains_point(point) {
                found = Some(i);
            }
            i = i + 1;
        }
        proof {
            let layout = self@.latest_layout;
            let n = self@.containers.len();
            if let Some(k) = found {
                assert(is_last_hit(layout, n, x, y, k as int));
                assert(any_hit(layout, n, x, y));
                let c = choose|c: int| is_last_hit(layout, n, x, y, c);
                if c < k {
                    assert(!layout[k as int].spec_contains_point(x, y));
                }
                if k < c {
                    assert(!layout[c].spec_contains_point(x, y));
                }
            }
        }
        found
    }

    /// The window that each tiled container shows, in display order.
    pub fn visible_windows(&self) -> (r: Vec<Option<&Window>>)
        ensures
            r@.len() == self@.containers.len(),
            forall|i: int|
                0 <= i < r@.len() ==> match #[trigger] r@[i] {
                    Some(w) => self@.visible_windows()[i] == Some(*w),
                    None => self@.visible_windows()[i].is_none(),
                },
    {
        let containers = self.containers.elements();
        let mut visible: Vec<Option<&Window>> = Vec::new();
        let mut i: usize = 0;
        while i < containers.len()
            invariant
                i <= containers.len(),
                containers@ == self.containers@,
                visible@.len() == i,
                forall|j: int|
                    0 <= j < i ==> match #[trigger] visible@[j] {
                        Some(w) => self@.visible_windows()[j] == Some(*w),
                        None => self@.visible_windows()[j].is_none(),
                    },
            decreases containers.len() - i,
        {
            visible.push(containers[i].focused_window());
            i = i + 1;
        }
        visible
    }

    /// The index one step from the focused container in the given direction,
    /// wrapping round at either end of the ring; none for an empty ring.
    pub fn new_idx_for_cycle_direction(&self, direction: CycleDirection) -> (r: Option<usize>)
        requires
            self.wf(),
        ensures
            index_view(r) == self@.new_idx_for_cycle_direction(direction),
            r matches Some(idx) ==> idx < self@.containers.len(),
    {
        let len = self.containers.len();
        assert(len == self@.containers.len());
        if len == 0 {
            None
        } else {
            Some(direction.next_idx(self.containers.focused_idx(), len))
        }
    }

    /// The index to which the layout leads from the focused container in the
    /// given direction on screen; none for an empty ring. The layout
    /// strategy is `destination`: it is asked once, with the workspace's
    /// layout and axis flip, the direction, the focused index and the number
    /// of containers, and its answer is returned.
    pub fn new_idx_for_direction<F>(&self, direction: OperationDirection, destination: F) -> (r:
        Option<usize>) where F: Fn(Layout, Option<Axis>, OperationDirection, usize, usize) -> Option<usize>
        requires
            self.wf(),
            self@.containers.len() > 0 ==> destination.requires(
                (
                    self@.layout,
                    self@.layout_flip,
                    direction,
                    self@.focused as usize,
                    self@.containers.len() as usize,
                ),
            ),
        ensures
            self@.containers.len() == 0 ==> r.is_none(),
            self@.containers.len() > 0 ==> destination.ensures(
                (
                    self@.layout,
                    self@.layout_flip,
                    direction,
                    self@.focused as usize,
                    self@.containers.len() as usize,
                ),
                r,
            ),
    {
        let len = self.containers.len();
        assert(len == self@.containers.len());
        if len == 0 {
            None
        } else {
            destination(self.layout, self.layout_flip, direction, self.containers.focused_idx(), len)
        }
    }
}

} // verus!
