//! A tiling slot and the windows stacked in it.
use vstd::prelude::*;
use std::collections::VecDeque;
use crate::ring::focus_after_removal;
use crate::ring::Ring;
use crate::window::ring_contains_handle;
use crate::window::first_running;
use crate::window::ring_first_running_window;
use crate::window::has_handle;
use crate::window::is_last_idx_of;
use crate::window::last_idx_of;
use crate::window::ring_last_position;
use crate::window::PlatformCommand;
use crate::window::Window;
use crate::window::WindowExe;

verus! {

/// The number of characters of a container's identity.
pub const CONTAINER_ID_LEN: usize = 21;

/// What a container is to the arrangement logic: its identity, its windows
/// in order, and the index of the window that is shown.
pub struct ContainerView {
    pub id: Seq<char>,
    pub windows: Seq<Window>,
    pub focused: nat,
}

impl ContainerView {
    /// The focus invariant of the container's ring of windows.
    pub open spec fn wf(self) -> bool {
        if self.windows.len() == 0 {
            self.focused == 0
        } else {
            self.focused < self.windows.len()
        }
    }

    /// Whether the container has no windows.
    pub open spec fn is_empty(self) -> bool {
        self.windows.len() == 0
    }

    /// The window that is shown, if the container has one.
    pub open spec fn focused_window(self) -> Option<Window> {
        if self.focused < self.windows.len() {
            Some(self.windows[self.focused as int])
        } else {
            None
        }
    }

    /// The container with its cursor at `idx`; an index past the last window
    /// is ignored.
    pub open spec fn focus_window(self, idx: nat) -> ContainerView {
        if idx < self.windows.len() {
            ContainerView { focused: idx, ..self }
        } else {
            self
        }
    }

    /// The container with `window` appended and shown.
    pub open spec fn add_window(self, window: Window) -> ContainerView {
        ContainerView {
            windows: self.windows.push(window),
            focused: self.windows.len(),
            ..self
        }
    }

    /// The container without the window at `idx`; an index past the last
    /// window removes nothing.
    pub open spec fn remove_window_by_idx(self, idx: nat) -> ContainerView {
        if idx < self.windows.len() {
            ContainerView {
                windows: self.windows.remove(idx as int),
                focused: focus_after_removal(self.focused, idx),
                ..self
            }
        } else {
            self
        }
    }

    /// The container without the window that is shown.
    pub open spec fn remove_focused_window(self) -> ContainerView {
        self.remove_window_by_idx(self.focused)
    }

    /// The commands that put the focused window on screen and take the
    /// container's other windows off it, one per window, in ring order.
    pub open spec fn load_focused_window(self) -> Seq<PlatformCommand> {
        Seq::new(
            self.windows.len(),
            |i: int|
                if i == self.focused {
                    PlatformCommand::Restore(self.windows[i].hwnd)
                } else {
                    PlatformCommand::Hide(self.windows[i].hwnd)
                },
        )
    }

    /// A container that holds `window` alone.
    pub open spec fn single(id: Seq<char>, window: Window) -> ContainerView {
        ContainerView { id, windows: seq![window], focused: 0 }
    }

    /// A container without windows.
    pub open spec fn empty(id: Seq<char>) -> ContainerView {
        ContainerView { id, windows: Seq::empty(), focused: 0 }
    }
}

/// The views of a sequence of containers, in order.
pub open spec fn container_views(containers: Seq<Container>) -> Seq<ContainerView> {
    Seq::new(containers.len(), |i: int| containers[i]@)
}

/// The view of a container that may be absent.
pub open spec fn option_view(container: Option<Container>) -> Option<ContainerView> {
    match container {
        Some(c) => Some(c@),
        None => None,
    }
}

/// An index that may be absent, as a number.
pub open spec fn index_view(idx: Option<usize>) -> Option<nat> {
    match idx {
        Some(i) => Some(i as nat),
        None => None,
    }
}

/// The view of a name that may be absent.
pub open spec fn name_view(name: Option<String>) -> Option<Seq<char>> {
    match name {
        Some(n) => Some(n@),
        None => None,
    }
}

/// A tiling slot: one or more windows that tile as a unit, one of them shown
/// at a time. A container has an identity that it keeps for as long as it
/// lives.
#[derive(Debug)]
pub struct Container {
    id: String,
    windows: Ring<Window>,
}

impl View for Container {
    type V = ContainerView;

    closed spec fn view(&self) -> ContainerView {
        ContainerView {
            id: self.id@,
            windows: self.windows@,
            focused: self.windows.spec_focused_idx() as nat,
        }
    }
}

/// Draws a fresh identity with `nanoid::format`, from the default random
/// source over the URL-safe alphabet and with the default size of 21. Which
/// identity comes out is left open; its length is the size that was asked
/// for, since every character of that alphabet is one byte long.
#[verifier::external_body]
fn fresh_id() -> (id: String)
    ensures
        id@.len() == 21,
{
    nanoid::format(nanoid::rngs::default, &nanoid::alphabet::SAFE, 21)
}

impl Container {
    /// The focus invariant of the container's ring of windows.
    pub open spec fn wf(&self) -> bool {
        self@.wf()
    }

    /// A container without windows, under a fresh identity.
    pub fn new() -> (c: Container)
        ensures
            c@ == ContainerView::empty(c@.id),
            c@.id.len() == CONTAINER_ID_LEN,
            c.wf(),
    {
        let c = Container { id: fresh_id(), windows: Ring::new() };
        assert(c@.windows =~= Seq::empty());
        c
    }

    /// A container that holds `window` alone, under a fresh identity.
    pub fn with_window(window: Window) -> (c: Container)
        ensures
            c@ == ContainerView::single(c@.id, window),
            c@.id.len() == CONTAINER_ID_LEN,
            c.wf(),
    {
        let mut c = Container::new();
        c.add_window(window);
        assert(c@.windows =~= seq![window]);
        c
    }

    /// A container of the given identity and windows that shows the window
    /// at `focused`, or the first window where `focused` is no index of a
    /// window.
    pub fn from_parts(id: String, windows: VecDeque<Window>, focused: usize) -> (c: Container)
        ensures
            c@ == (ContainerView {
                id: id@,
                windows: windows@,
                focused: if focused < windows@.len() {
                    focused as nat
                } else {
                    0
                },
            }),
            c.wf(),
    {
        Container { id, windows: Ring::from_parts(windows, focused) }
    }

    /// Whether the container's ring of windows keeps the focus invariant.
    pub fn is_well_formed(&self) -> (b: bool)
        ensures
            b == self.wf(),
    {
        self.windows.is_well_formed()
    }

    /// The container's identity.
    pub fn id(&self) -> (id: &String)
        ensures
            id@ == self@.id,
    {
        &self.id
    }

    /// The windows in ring order.
    pub fn windows(&self) -> (v: &VecDeque<Window>)
        ensures
            v@ == self@.windows,
    {
        self.windows.elements()
    }

    /// The ring of windows, to change it in place.
    pub fn windows_mut(&mut self) -> (r: &mut Ring<Window>)
        ensures
            r@ == old(self)@.windows,
            r.spec_focused_idx() == old(self)@.focused,
            final(self)@ == (ContainerView {
                id: old(self)@.id,
                windows: final(r)@,
                focused: final(r).spec_focused_idx() as nat,
            }),
    {
        &mut self.windows
    }

    /// Whether the container has no windows.
    pub fn is_empty(&self) -> (b: bool)
        ensures
            b == self@.is_empty(),
    {
        self.windows.is_empty()
    }

    /// The index of the window that is shown; zero for an empty container.
    pub fn focused_window_idx(&self) -> (idx: usize)
        ensures
            idx == self@.focused,
    {
        self.windows.focused_idx()
    }

    /// The window that is shown.
    pub fn focused_window(&self) -> (r: Option<&Window>)
        ensures
            match r {
                Some(w) => self@.focused_window() == Some(*w),
                None => self@.focused_window().is_none(),
            },
    {
        self.windows.focused()
    }

    /// A mutable borrow of the window that is shown.
    pub fn focused_window_mut(&mut self) -> (r: Option<&mut Window>)
        ensures
            old(self)@.focused_window().is_none() ==> r.is_none() && *final(self) == *old(self),
            old(self)@.focused_window().is_some() ==> match r {
                Some(w) => {
                    &&& Some(*w) == old(self)@.focused_window()
                    &&& final(self)@ == (ContainerView {
                        windows: old(self)@.windows.update(old(self)@.focused as int, *final(w)),
                        ..old(self)@
                    })
                },
                None => false,
            },
    {
        self.windows.focused_mut()
    }

    /// Moves the cursor to the window at `idx`; an index past the last window
    /// is ignored.
    pub fn focus_window(&mut self, idx: usize)
        ensures
            final(self)@ == old(self)@.focus_window(idx as nat),
            old(self).wf() ==> final(self).wf(),
    {
        self.windows.focus(idx);
    }

    /// Appends `window` and shows it.
    pub fn add_window(&mut self, window: Window)
        ensures
            final(self)@ == old(self)@.add_window(window),
            final(self).wf(),
    {
        self.windows.push_back(window);
        let last = self.windows.len() - 1;
        self.windows.focus(last);
    }

    /// Removes and returns the window at `idx`; an index past the last window
    /// removes nothing.
    pub fn remove_window_by_idx(&mut self, idx: usize) -> (r: Option<Window>)
        ensures
            final(self)@ == old(self)@.remove_window_by_idx(idx as nat),
            r == if idx < old(self)@.windows.len() {
                Some(old(self)@.windows[idx as int])
            } else {
                None
            },
            old(self).wf() ==> final(self).wf(),
    {
        self.windows.remove(idx)
    }

    /// Removes and returns the window that is shown.
    pub fn remove_focused_window(&mut self) -> (r: Option<Window>)
        ensures
            final(self)@ == old(self)@.remove_focused_window(),
            r == old(self)@.focused_window(),
            old(self).wf() ==> final(self).wf(),
    {
        let idx = self.windows.focused_idx();
        self.windows.remove(idx)
    }

    /// Whether a window of the container has the handle `hwnd`.
    pub fn contains_window(&self, hwnd: isize) -> (b: bool)
        ensures
            b == has_handle(self@.windows, hwnd),
    {
        ring_contains_handle(self.windows.elements(), hwnd)
    }

    /// The last index at which a window with the handle `hwnd` stands.
    pub fn idx_for_window(&self, hwnd: isize) -> (r: Option<usize>)
        ensures
            r.is_some() == has_handle(self@.windows, hwnd),
            r matches Some(i) ==> is_last_idx_of(self@.windows, hwnd, i as int) && i
                == last_idx_of(self@.windows, hwnd),
    {
        ring_last_position(self.windows.elements(), hwnd)
    }

    /// The handle of the first window, in ring order, that the reports in
    /// `executables` assign to the program `exe`.
    pub fn hwnd_from_exe(&self, exe: &str, executables: &Vec<WindowExe>) -> (r: Option<isize>)
        ensures
            r == first_running(self@.windows, executables@, exe@),
    {
        let exe = exe.to_owned();
        ring_first_running_window(self.windows.elements(), executables, &exe)
    }

    /// The commands that put the focused window on screen and take the
    /// container's other windows off it.
    pub fn load_focused_window(&self) -> (commands: Vec<PlatformCommand>)
        ensures
            commands@ == self@.load_focused_window(),
    {
        let windows = self.windows.elements();
        let focused = self.windows.focused_idx();
        let mut commands: Vec<PlatformCommand> = Vec::new();
        let mut i: usize = 0;
        while i < windows.len()
            invariant
                i <= windows.len(),
                windows@ == self@.windows,
                focused == self@.focused,
                commands@ == self@.load_focused_window().take(i as int),
            decreases windows.len() - i,
        {
            if i == focused {
                commands.push(PlatformCommand::Restore(windows[i].hwnd));
            } else {
                commands.push(PlatformCommand::Hide(windows[i].hwnd));
            }
            i = i + 1;
            assert(commands@ =~= self@.load_focused_window().take(i as int));
        }
        assert(commands@ =~= self@.load_focused_window());
        commands
    }
}

impl Default for Container {
    fn default() -> (c: Container)
        ensures
            c@ == ContainerView::empty(c@.id),
            c@.id.len() == CONTAINER_ID_LEN,
            c.wf(),
    {
        Container::new()
    }
}

impl Clone for Container {
    fn clone(&self) -> (c: Container)
        ensures
            c@ == self@,
    {
        let c = Container { id: self.id.clone(), windows: self.windows.clone() };
        assert(c@.windows =~= self@.windows);
        c
    }
}

} // verus!
