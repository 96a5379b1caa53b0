//! The transitions of the placement state machine: how windows and containers
//! move between the tiled ring, the monocle slot, the maximized slot and the
//! floating windows.
use vstd::prelude::*;
use crate::container::Container;
use crate::container::ContainerView;
use crate::container::CONTAINER_ID_LEN;
use crate::error::WorkspaceError;
use crate::model::insert_slot;
use crate::model::pad_slots;
use crate::model::Outcome;
use crate::model::WorkspaceView;
use crate::rect::Rect;
use crate::window::contains_handle;
use crate::window::ring_first_position;
use crate::window::has_handle;
use crate::window::last_idx_of;
use crate::window::last_position;
use crate::window::remove_handle;
use crate::window::PlatformCommand;
use crate::window::Window;
use crate::workspace::Workspace;

verus! {

/// Puts `slot` into the size overrides at `idx`, or at the end where `idx`
/// lies past it.
fn insert_slot_at(slots: &mut Vec<Option<Rect>>, idx: usize, slot: Option<Rect>)
    ensures
        final(slots)@ == insert_slot(old(slots)@, idx as nat, slot),
{
    if idx <= slots.len() {
        slots.insert(idx, slot);
    } else {
        slots.push(slot);
    }
}

/// Puts `count` empty slots into the size overrides at `idx`, or at the end
/// where `idx` lies past it.
fn pad_slots_at(slots: &mut Vec<Option<Rect>>, idx: usize, count: usize)
    ensures
        final(slots)@ == pad_slots(old(slots)@, idx as nat, count as nat),
{
    let at = if idx <= slots.len() {
        idx
    } else {
        slots.len()
    };
    let mut done: usize = 0;
    assert(slots@ =~= pad_slots(old(slots)@, idx as nat, 0));
    while done < count
        invariant
            done <= count,
            at <= old(slots)@.len(),
            at == if idx <= old(slots)@.len() {
                idx as int
            } else {
                old(slots)@.len() as int
            },
            slots@ == pad_slots(old(slots)@, idx as nat, done as nat),
        decreases count - done,
    {
        slots.insert(at, None);
        done = done + 1;
        assert(slots@ =~= pad_slots(old(slots)@, idx as nat, done as nat));
    }
}

impl Workspace {
    /// Moves the focus to the container at `idx`; an index past the last
    /// container is ignored.
    pub fn focus_container(&mut self, idx: usize)
        requires
            old(self).wf(),
        ensures
            final(self)@ == old(self)@.focus_container(idx as nat),
            final(self).wf(),
    {
        self.containers.focus(idx);
    }

    /// Exchanges the containers at `i` and `j` and moves the focus to `j`.
    pub fn swap_containers(&mut self, i: usize, j: usize)
        requires
            old(self).wf(),
            i < old(self)@.containers.len(),
            j < old(self)@.containers.len(),
        ensures
            final(self)@ == old(self)@.swap_containers(i as nat, j as nat),
            final(self).wf(),
    {
        self.containers.swap(i, j);
        self.containers.focus(j);
        assert(self@.containers =~= old(self)@.swap_containers(i as nat, j as nat).containers);
    }

    /// Puts `container` into the ring at `idx`, with an empty size override
    /// at the same index. The cursor keeps its index.
    pub fn insert_container_at_idx(&mut self, idx: usize, container: Container)
        requires
            old(self).wf(),
            container.wf(),
            idx <= old(self)@.containers.len(),
        ensures
            final(self)@ == old(self)@.insert_container_at_idx(idx as nat, container@),
            final(self).wf(),
    {
        self.containers.insert(idx, container);
        insert_slot_at(&mut self.resize_dimensions, idx, None);
        assert(self@.containers =~= old(self)@.containers.insert(idx as int, container@));
    }

    /// Appends `container` to the ring, with an empty size override, and
    /// gives it the focus.
    pub fn add_container(&mut self, container: Container)
        requires
            old(self).wf(),
            container.wf(),
        ensures
            final(self)@ == old(self)@.add_container(container@),
            final(self).wf(),
    {
        let idx = self.containers.len();
        self.insert_container_at_idx(idx, container);
        self.containers.focus(idx);
    }

    /// Removes the container at `idx`, if there is one, and the size override
    /// at `idx`, if there is one. The focus stays with the focused container
    /// when an earlier one leaves, and moves to the container before when the
    /// focused one leaves.
    pub fn remove_container_by_idx(&mut self, idx: usize) -> (r: Option<Container>)
        requires
            old(self).wf(),
        ensures
            final(self)@ == old(self)@.remove_container(idx as nat),
            match r {
                Some(c) => idx < old(self)@.containers.len() && c@ == old(self)@.containers[idx as int],
                None => idx >= old(self)@.containers.len(),
            },
            final(self).wf(),
    {
        if idx < self.resize_dimensions.len() {
            self.resize_dimensions.remove(idx);
        }
        let r = self.containers.remove(idx);
        assert(self@.containers =~= old(self)@.remove_container(idx as nat).containers);
        r
    }

    /// Removes the focused container and its size override. The focus moves
    /// to the container before it.
    pub fn remove_focused_container(&mut self) -> (r: Option<Container>)
        requires
            old(self).wf(),
        ensures
            final(self)@ == old(self)@.remove_container(old(self)@.focused),
            match r {
                Some(c) => old(self)@.focused_container() == Some(c@),
                None => old(self)@.focused_container().is_none(),
            },
            final(self).wf(),
    {
        let idx = self.containers.focused_idx();
        self.remove_container_by_idx(idx)
    }

    /// Removes the container at `idx` and its size override. The focus stays
    /// with the focused container when an earlier one leaves, and moves to
    /// the container before when the focused one leaves.
    pub fn remove_container(&mut self, idx: usize) -> (r: Option<Container>)
        requires
            old(self).wf(),
        ensures
            final(self)@ == old(self)@.remove_container(idx as nat),
            match r {
                Some(c) => idx < old(self)@.containers.len() && c@ == old(self)@.containers[idx as int],
                None => idx >= old(self)@.containers.len(),
            },
            final(self).wf(),
    {
        self.remove_container_by_idx(idx)
    }

    /// Removes the window with the handle `hwnd` from wherever it is: the
    /// floating windows, the monocle container, the maximized slot or a tiled
    /// container, looked through in this order. A tiled or monocle container
    /// that is left empty is removed with it. Returns the commands that are
    /// due, or fails, changing nothing, where no window has the handle.
    pub fn remove_window(&mut self, hwnd: isize) -> (r: Result<Vec<PlatformCommand>, WorkspaceError>)
        requires
            old(self).wf(),
        ensures
            match r {
                Ok(commands) => old(self)@.remove_window(hwnd) == Ok::<Outcome, WorkspaceError>(
                    Outcome { workspace: final(self)@, commands: commands@ },
                ),
                Err(e) => old(self)@.remove_window(hwnd) == Err::<Outcome, WorkspaceError>(e)
                    && *final(self) == *old(self),
            },
            final(self).wf(),
    {
        if contains_handle(&self.floating_windows, hwnd) {
            remove_handle(&mut self.floating_windows, hwnd);
            return Ok(Vec::new());
        }
        if let Some(container) = &mut self.monocle_container {
            if let Some(window_idx) = ring_first_position(container.windows(), hwnd) {
                container.remove_window_by_idx(window_idx);
                if container.is_empty() {
                    self.monocle_container = None;
                    self.monocle_container_restore_idx = None;
                }
                return Ok(Vec::new());
            }
        }
        if let Some(window) = self.maximized_window {
            if window.hwnd == hwnd {
                self.maximized_window = None;
                self.maximized_window_restore_idx = None;
                let mut commands = Vec::new();
                commands.push(PlatformCommand::Unmaximize(hwnd));
                assert(commands@ =~= seq![PlatformCommand::Unmaximize(hwnd)]);
                return Ok(commands);
            }
        }
        let container_idx = match self.container_idx_for_window(hwnd) {
            Some(idx) => idx,
            None => {
                return Err(WorkspaceError::NoWindow);
            },
        };
        let container = self.containers.index_mut(container_idx);
        let window_idx = match ring_first_position(container.windows(), hwnd) {
            Some(idx) => idx,
            None => {
                return Err(WorkspaceError::NoWindow);
            },
        };
        container.remove_window_by_idx(window_idx);
        let emptied = container.is_empty();
        let commands = if emptied {
            Vec::new()
        } else {
            container.load_focused_window()
        };
        proof {
            let rest = old(self)@.containers[container_idx as int].remove_window_by_idx(
                window_idx as nat,
            );
            assert(self@.containers =~= old(self)@.containers.update(container_idx as int, rest));
        }
        if emptied {
            self.remove_container_by_idx(container_idx);
            assert(self@.containers =~= old(self)@.containers.remove(container_idx as int));
        }
        Ok(commands)
    }

    /// Why the focused window of the focused container cannot be taken, if it
    /// cannot: there is no focused container, or it shows no window.
    fn focused_window_error(&self) -> (r: Option<WorkspaceError>)
        ensures
            r == self@.focused_window_error(),
    {
        match self.containers.focused() {
            None => Some(WorkspaceError::NoContainer),
            Some(container) => match container.focused_window() {
                None => Some(WorkspaceError::NoWindow),
                Some(_) => None,
            },
        }
    }

    /// Takes the focused window out of the focused container. The container
    /// leaves the ring where this empties it; else the commands show what it
    /// now shows.
    fn release_focused_window(&mut self) -> (r: (Window, Vec<PlatformCommand>))
        requires
            old(self).wf(),
            old(self)@.focused_window_error().is_none(),
        ensures
            final(self)@ == old(self)@.release_focused_window().workspace,
            r.1@ == old(self)@.release_focused_window().commands,
            Some(r.0) == old(self)@.containers[old(self)@.focused as int].focused_window(),
            final(self).wf(),
    {
        let idx = self.containers.focused_idx();
        let container = self.containers.index_mut(idx);
        let window = container.remove_focused_window().unwrap();
        let emptied = container.is_empty();
        let commands = if emptied {
            Vec::new()
        } else {
            container.load_focused_window()
        };
        proof {
            let rest = old(self)@.containers[idx as int].remove_focused_window();
            assert(self@.containers =~= old(self)@.containers.update(idx as int, rest));
        }
        if emptied {
            self.remove_container_by_idx(idx);
            assert(self@.containers =~= old(self)@.containers.remove(idx as int));
        }
        (window, commands)
    }

    /// Takes the focused window out of the monocle container. The monocle
    /// slot is cleared where this empties the container; else the commands
    /// show what it now shows.
    fn release_monocle_window(&mut self) -> (r: (Window, Vec<PlatformCommand>))
        requires
            old(self).wf(),
            old(self)@.monocle_container matches Some(c) && c.focused_window().is_some(),
        ensures
            final(self)@ == old(self)@.release_monocle_window().workspace,
            r.1@ == old(self)@.release_monocle_window().commands,
            Some(r.0) == old(self)@.monocle_container->0.focused_window(),
            final(self).wf(),
    {
        let mut container = self.monocle_container.take().unwrap();
        let window = container.remove_focused_window().unwrap();
        if container.is_empty() {
            self.monocle_container_restore_idx = None;
            (window, Vec::new())
        } else {
            let commands = container.load_focused_window();
            self.monocle_container = Some(container);
            (window, commands)
        }
    }

    /// Removes and returns the last floating window with the handle
    /// `foreground`, the handle of the window that has the input focus.
    pub fn remove_focused_floating_window(&mut self, foreground: isize) -> (r: Option<Window>)
        requires
            old(self).wf(),
        ensures
            final(self)@ == old(self)@.remove_focused_floating_window(foreground),
            r.is_some() == has_handle(old(self)@.floating_windows, foreground),
            r.is_none() ==> *final(self) == *old(self),
            r matches Some(w) ==> w == old(self)@.floating_windows[last_idx_of(
                old(self)@.floating_windows,
                foreground,
            )],
            final(self).wf(),
    {
        match last_position(&self.floating_windows, foreground) {
            None => None,
            Some(idx) => Some(self.floating_windows.remove(idx)),
        }
    }

    /// Puts a new container that holds `window` alone into the ring at `idx`,
    /// with an empty size override, and gives it the focus.
    fn place_window(&mut self, idx: usize, window: Window) -> (id: Ghost<Seq<char>>)
        requires
            old(self).wf(),
            idx <= old(self)@.containers.len(),
        ensures
            final(self)@ == old(self)@.place_window(idx as nat, window, id@),
            id@.len() == CONTAINER_ID_LEN,
            final(self).wf(),
    {
        let container = Container::with_window(window);
        let ghost id = container@.id;
        self.insert_container_at_idx(idx, container);
        self.containers.focus(idx);
        Ghost(id)
    }

    /// Grows the ring to `len` containers with empty containers, each with an
    /// empty size override at its index.
    fn pad_to(&mut self, len: usize) -> (pad_id: Ghost<Seq<char>>)
        requires
            old(self).wf(),
        ensures
            final(self)@ == old(self)@.pad_to(len as nat, pad_id@),
            pad_id@.len() == CONTAINER_ID_LEN,
            final(self).wf(),
    {
        let old_len = self.containers.len();
        if len > old_len {
            let fill = Container::new();
            let ghost id = fill@.id;
            self.containers.resize(len, fill);
            pad_slots_at(&mut self.resize_dimensions, old_len, len - old_len);
            proof {
                let padded = old(self)@.pad_to(len as nat, id);
                assert(self.containers@.subrange(0, old_len as int) == old(self).containers@);
                assert forall|i: int| 0 <= i < len implies #[trigger] self@.containers[i]
                    == padded.containers[i] by {
                    if i < old_len {
                        assert(self.containers@[i] == self.containers@.subrange(
                            0,
                            old_len as int,
                        )[i]);
                    } else {
                        assert(cloned::<Container>(fill, self.containers@[i]));
                    }
                }
                assert(self@.containers =~= padded.containers);
            }
            Ghost(id)
        } else {
            Ghost(Seq::new(CONTAINER_ID_LEN as nat, |i: int| '_'))
        }
    }

    /// Puts a new container that holds `window` alone into the ring, right
    /// after the focused container, with an empty size override, and gives
    /// it the focus.
    pub fn new_container_for_window(&mut self, window: Window)
        requires
            old(self).wf(),
        ensures
            exists|id: Seq<char>|
                id.len() == CONTAINER_ID_LEN && final(self)@
                    == #[trigger] old(self)@.new_container_for_window(window, id),
            final(self).wf(),
    {
        let len = self.containers.len();
        assert(self@.containers.len() == len);
        let next_idx = if len == 0 {
            0
        } else {
            self.containers.focused_idx() + 1
        };
        let id = self.place_window(next_idx, window);
        assert(self@ == old(self)@.new_container_for_window(window, id@));
    }

    /// Moves the focused window of the focused container to a new container
    /// of its own, right after the index that had the focus, and gives it the
    /// focus. The source container leaves the ring where this empties it.
    /// Fails, changing nothing, where there is no focused container or no
    /// focused window.
    pub fn new_container_for_focused_window(&mut self) -> (r: Result<
        Vec<PlatformCommand>,
        WorkspaceError,
    >)
        requires
            old(self).wf(),
        ensures
            match r {
                Ok(commands) => exists|id: Seq<char>|
                    id.len() == CONTAINER_ID_LEN && #[trigger] old(
                        self,
                    )@.new_container_for_focused_window(id) == Ok::<Outcome, WorkspaceError>(
                        Outcome { workspace: final(self)@, commands: commands@ },
                    ),
                Err(e) => old(self)@.focused_window_error() == Some(e) && *final(self) == *old(
                    self,
                ),
            },
            final(self).wf(),
    {
        if let Some(e) = self.focused_window_error() {
            return Err(e);
        }
        let len = self.containers.len();
        assert(self@.containers.len() == len);
        let focused_idx = self.containers.focused_idx();
        let (window, commands) = self.release_focused_window();
        let idx = if focused_idx + 1 <= self.containers.len() {
            focused_idx + 1
        } else {
            self.containers.len()
        };
        let id = self.place_window(idx, window);
        assert(old(self)@.new_container_for_focused_window(id@) == Ok::<Outcome, WorkspaceError>(
            Outcome { workspace: self@, commands: commands@ },
        ));
        Ok(commands)
    }

    /// Moves the floating window with the handle `foreground`, the handle of
    /// the window that has the input focus, to a new container, which enters
    /// the ring at the focused index with an empty size override. Fails,
    /// changing nothing, where no floating window has the handle.
    pub fn new_container_for_floating_window(&mut self, foreground: isize) -> (r: Result<
        (),
        WorkspaceError,
    >)
        requires
            old(self).wf(),
        ensures
            match r {
                Ok(_) => exists|id: Seq<char>|
                    id.len() == CONTAINER_ID_LEN && #[trigger] old(
                        self,
                    )@.new_container_for_floating_window(foreground, id) == Ok::<
                        WorkspaceView,
                        WorkspaceError,
                    >(final(self)@),
                Err(e) => e == WorkspaceError::NoFloatingWindow && !has_handle(
                    old(self)@.floating_windows,
                    foreground,
                ) && *final(self) == *old(self),
            },
            final(self).wf(),
    {
        let focused_idx = self.containers.focused_idx();
        let window = match self.remove_focused_floating_window(foreground) {
            Some(window) => window,
            None => {
                return Err(WorkspaceError::NoFloatingWindow);
            },
        };
        let container = Container::with_window(window);
        let ghost id = container@.id;
        self.insert_container_at_idx(focused_idx, container);
        assert(old(self)@.new_container_for_floating_window(foreground, id) == Ok::<
            WorkspaceView,
            WorkspaceError,
        >(self@));
        Ok(())
    }

    /// Lets a window float: the maximized window if there is one, else the
    /// focused window of the monocle container if there is one, else the
    /// focused window of the focused tiled container. A container that this
    /// empties is removed. Fails, changing nothing, where the source has no
    /// window to give.
    pub fn new_floating_window(&mut self) -> (r: Result<Vec<PlatformCommand>, WorkspaceError>)
        requires
            old(self).wf(),
        ensures
            match r {
                Ok(commands) => old(self)@.new_floating_window() == Ok::<Outcome, WorkspaceError>(
                    Outcome { workspace: final(self)@, commands: commands@ },
                ),
                Err(e) => old(self)@.new_floating_window() == Err::<Outcome, WorkspaceError>(e)
                    && *final(self) == *old(self),
            },
            final(self).wf(),
    {
        if let Some(window) = self.maximized_window {
            self.maximized_window = None;
            self.maximized_window_restore_idx = None;
            self.floating_windows.push(window);
            return Ok(Vec::new());
        }
        let monocle_shows = match &self.monocle_container {
            Some(container) => Some(container.focused_window().is_some()),
            None => None,
        };
        let (window, commands) = match monocle_shows {
            Some(false) => {
                return Err(WorkspaceError::NoWindow);
            },
            Some(true) => self.release_monocle_window(),
            None => {
                if let Some(e) = self.focused_window_error() {
                    return Err(e);
                }
                self.release_focused_window()
            },
        };
        self.floating_windows.push(window);
        Ok(commands)
    }

    /// Moves the focused container, whole, to the monocle slot. Its index is
    /// kept for its return, its size override stays where it is, and the
    /// focus moves to the container before it. Fails, changing nothing,
    /// where there is no focused container.
    pub fn new_monocle_container(&mut self) -> (r: Result<Vec<PlatformCommand>, WorkspaceError>)
        requires
            old(self).wf(),
        ensures
            match r {
                Ok(commands) => old(self)@.new_monocle_container() == Ok::<Outcome, WorkspaceError>(
                    Outcome { workspace: final(self)@, commands: commands@ },
                ),
                Err(e) => old(self)@.new_monocle_container() == Err::<Outcome, WorkspaceError>(e)
                    && *final(self) == *old(self),
            },
            final(self).wf(),
    {
        let focused_idx = self.containers.focused_idx();
        let container = match self.containers.remove(focused_idx) {
            Some(container) => container,
            None => {
                return Err(WorkspaceError::NoContainer);
            },
        };
        let commands = container.load_focused_window();
        self.monocle_container = Some(container);
        self.monocle_container_restore_idx = Some(focused_idx);
        assert(self@.containers =~= old(self)@.containers.remove(focused_idx as int));
        Ok(commands)
    }

    /// Returns the monocle container to the ring at its restore index and
    /// gives it the focus. A ring that has become shorter than the restore
    /// index is first grown to it with empty containers. Fails, changing
    /// nothing, where there is no restore index or no monocle container.
    pub fn reintegrate_monocle_container(&mut self) -> (r: Result<
        Vec<PlatformCommand>,
        WorkspaceError,
    >)
        requires
            old(self).wf(),
        ensures
            match r {
                Ok(commands) => exists|pad_id: Seq<char>|
                    pad_id.len() == CONTAINER_ID_LEN && #[trigger] old(
                        self,
                    )@.reintegrate_monocle_container(pad_id) == Ok::<Outcome, WorkspaceError>(
                        Outcome { workspace: final(self)@, commands: commands@ },
                    ),
                Err(e) => old(self)@.reintegrate_monocle_container(Seq::empty()) == Err::<
                    Outcome,
                    WorkspaceError,
                >(e) && *final(self) == *old(self),
            },
            final(self).wf(),
    {
        let restore_idx = match self.monocle_container_restore_idx {
            Some(idx) => idx,
            None => {
                return Err(WorkspaceError::NoMonocleRestoreIdx);
            },
        };
        let container = match self.monocle_container.take() {
            Some(container) => container,
            None => {
                return Err(WorkspaceError::NoMonocleContainer);
            },
        };
        self.monocle_container_restore_idx = None;
        let pad_id = self.pad_to(restore_idx);
        let ghost padded = self@;
        let commands = container.load_focused_window();
        let ghost view = container@;
        self.containers.insert(restore_idx, container);
        self.containers.focus(restore_idx);
        proof {
            assert(self@.containers =~= padded.containers.insert(restore_idx as int, view));
            assert(old(self)@.reintegrate_monocle_container(pad_id@) == Ok::<
                Outcome,
                WorkspaceError,
            >(Outcome { workspace: self@, commands: commands@ }));
        }
        Ok(commands)
    }

    /// Maximizes a window: the floating window with the handle `foreground`,
    /// the handle of the window that has the input focus, if there is one;
    /// else the focused window of the monocle container if there is one;
    /// else the focused window of the focused tiled container, after which
    /// the focus moves to the container before. A container that this empties
    /// is removed. The index at which the window returns is kept. Fails,
    /// changing nothing, where the source has no window to give.
    pub fn new_maximized_window(&mut self, foreground: isize) -> (r: Result<
        Vec<PlatformCommand>,
        WorkspaceError,
    >)
        requires
            old(self).wf(),
        ensures
            match r {
                Ok(commands) => old(self)@.new_maximized_window(foreground) == Ok::<
                    Outcome,
                    WorkspaceError,
                >(Outcome { workspace: final(self)@, commands: commands@ }),
                Err(e) => old(self)@.new_maximized_window(foreground) == Err::<
                    Outcome,
                    WorkspaceError,
                >(e) && *final(self) == *old(self),
            },
            final(self).wf(),
    {
        let focused_idx = self.containers.focused_idx();
        if let Some(window) = self.remove_focused_floating_window(foreground) {
            self.maximized_window = Some(window);
            self.maximized_window_restore_idx = Some(focused_idx);
            let mut commands = Vec::new();
            commands.push(PlatformCommand::Maximize(window.hwnd));
            assert(commands@ =~= seq![PlatformCommand::Maximize(window.hwnd)]);
            return Ok(commands);
        }
        let monocle_shows = match &self.monocle_container {
            Some(container) => Some(container.focused_window().is_some()),
            None => None,
        };
        let (window, mut commands) = match monocle_shows {
            Some(false) => {
                return Err(WorkspaceError::NoWindow);
            },
            Some(true) => {
                let restore_idx = self.monocle_container_restore_idx;
                let released = self.release_monocle_window();
                self.maximized_window_restore_idx = restore_idx;
                released
            },
            None => {
                if let Some(e) = self.focused_window_error() {
                    return Err(e);
                }
                let emptied = match self.containers.focused() {
                    Some(source) => source.windows().len() == 1,
                    None => false,
                };
                let released = self.release_focused_window();
                self.maximized_window_restore_idx = Some(focused_idx);
                if !emptied && focused_idx > 0 {
                    self.containers.focus(focused_idx - 1);
                }
                released
            },
        };
        self.maximized_window = Some(window);
        commands.push(PlatformCommand::Maximize(window.hwnd));
        Ok(commands)
    }

    /// Returns the maximized window to the ring, in a new container at its
    /// restore index with an empty size override, and gives it the focus. A
    /// ring that has become shorter than the restore index is first grown to
    /// it with empty containers. Fails, changing nothing, where there is no
    /// restore index or no maximized window.
    pub fn reintegrate_maximized_window(&mut self) -> (r: Result<
        Vec<PlatformCommand>,
        WorkspaceError,
    >)
        requires
            old(self).wf(),
        ensures
            match r {
                Ok(commands) => exists|pad_id: Seq<char>, id: Seq<char>|
                    pad_id.len() == CONTAINER_ID_LEN && id.len() == CONTAINER_ID_LEN
                        && #[trigger] old(self)@.reintegrate_maximized_window(pad_id, id) == Ok::<
                        Outcome,
                        WorkspaceError,
                    >(Outcome { workspace: final(self)@, commands: commands@ }),
                Err(e) => old(self)@.reintegrate_maximized_window(Seq::empty(), Seq::empty())
                    == Err::<Outcome, WorkspaceError>(e) && *final(self) == *old(self),
            },
            final(self).wf(),
    {
        let restore_idx = match self.maximized_window_restore_idx {
            Some(idx) => idx,
            None => {
                return Err(WorkspaceError::NoMaximizedRestoreIdx);
            },
        };
        let window = match self.maximized_window {
            Some(window) => window,
            None => {
                return Err(WorkspaceError::NoMaximizedWindow);
            },
        };
        let pad_id = self.pad_to(restore_idx);
        let id = self.place_window(restore_idx, window);
        assert(self@.containers[restore_idx as int] == ContainerView::single(id@, window));
        let commands = match self.containers.get(restore_idx) {
            Some(container) => container.load_focused_window(),
            None => Vec::new(),
        };
        self.maximized_window = None;
        self.maximized_window_restore_idx = None;
        proof {
            assert(old(self)@.reintegrate_maximized_window(pad_id@, id@) == Ok::<
                Outcome,
                WorkspaceError,
            >(Outcome { workspace: self@, commands: commands@ }));
        }
        Ok(commands)
    }

    /// Moves the focused container, with its size override, to the primary
    /// slot of the layout and gives it the focus. Fails, changing nothing,
    /// where there is no focused container, where a custom layout has no
    /// primary column, or where the ring has no slot at the primary index.
    pub fn promote_container(&mut self) -> (r: Result<(), WorkspaceError>)
        requires
            old(self).wf(),
        ensures
            match r {
                Ok(_) => old(self)@.promote_container() == Ok::<WorkspaceView, WorkspaceError>(
                    final(self)@,
                ),
                Err(e) => old(self)@.promote_container() == Err::<WorkspaceView, WorkspaceError>(e)
                    && *final(self) == *old(self),
            },
            final(self).wf(),
    {
        let focused_idx = self.containers.focused_idx();
        if focused_idx >= self.containers.len() {
            return Err(WorkspaceError::NoContainer);
        }
        let primary_idx = match self.layout.primary_slot_index() {
            Some(idx) => idx,
            None => {
                return Err(WorkspaceError::NoPrimaryColumn);
            },
        };
        if primary_idx >= self.containers.len() {
            return Err(WorkspaceError::NoPrimarySlot);
        }
        let slot = if focused_idx < self.resize_dimensions.len() {
            self.resize_dimensions[focused_idx]
        } else {
            None
        };
        let container = self.remove_container_by_idx(focused_idx).unwrap();
        let ghost rest = self@;
        let ghost view = container@;
        self.containers.insert(primary_idx, container);
        insert_slot_at(&mut self.resize_dimensions, primary_idx, slot);
        self.containers.focus(primary_idx);
        assert(self@.containers =~= rest.containers.insert(primary_idx as int, view));
        Ok(())
    }

    /// Moves the focused window of the focused container to the container at
    /// `target`, shows it there and gives that container the focus. Where
    /// the move empties the source container, that container leaves the
    /// ring, and `target` counts the containers that remain: a target after
    /// the source is taken one lower. Fails, changing nothing, where there is
    /// no focused container, no focused window, or no target container.
    pub fn move_window_to_container(&mut self, target: usize) -> (r: Result<
        Vec<PlatformCommand>,
        WorkspaceError,
    >)
        requires
            old(self).wf(),
        ensures
            match r {
                Ok(commands) => old(self)@.move_window_to_container(target as nat) == Ok::<
                    Outcome,
                    WorkspaceError,
                >(Outcome { workspace: final(self)@, commands: commands@ }),
                Err(e) => old(self)@.move_window_to_container(target as nat) == Err::<
                    Outcome,
                    WorkspaceError,
                >(e) && *final(self) == *old(self),
            },
            final(self).wf(),
    {
        if let Some(e) = self.focused_window_error() {
            return Err(e);
        }
        let focused_idx = self.containers.focused_idx();
        let emptied = match self.containers.focused() {
            Some(source) => source.windows().len() == 1,
            None => false,
        };
        let adjusted = if emptied && focused_idx < target {
            target - 1
        } else {
            target
        };
        let remaining = if emptied {
            self.containers.len() - 1
        } else {
            self.containers.len()
        };
        if adjusted >= remaining {
            return Err(WorkspaceError::NoContainer);
        }
        let (window, mut commands) = self.release_focused_window();
        let ghost released = self@;
        let destination = self.containers.index_mut(adjusted);
        destination.add_window(window);
        let mut shown = destination.load_focused_window();
        self.containers.focus(adjusted);
        commands.append(&mut shown);
        proof {
            assert(self@.containers =~= released.containers.update(
                adjusted as int,
                released.containers[adjusted as int].add_window(window),
            ));
        }
        Ok(commands)
    }

    /// Moves the focus to the last tiled container that holds a window with
    /// the handle `hwnd`, and within it to the last window with that handle.
    /// Fails, changing nothing, where no tiled window has the handle.
    pub fn focus_container_by_window(&mut self, hwnd: isize) -> (r: Result<(), WorkspaceError>)
        requires
            old(self).wf(),
        ensures
            match r {
                Ok(_) => old(self)@.focus_container_by_window(hwnd) == Ok::<
                    WorkspaceView,
                    WorkspaceError,
                >(final(self)@),
                Err(e) => old(self)@.focus_container_by_window(hwnd) == Err::<
                    WorkspaceView,
                    WorkspaceError,
                >(e) && *final(self) == *old(self),
            },
            final(self).wf(),
    {
        let container_idx = match self.container_idx_for_window(hwnd) {
            Some(idx) => idx,
            None => {
                return Err(WorkspaceError::NoContainerOrWindow);
            },
        };
        let container = self.containers.index_mut(container_idx);
        let window_idx = match container.idx_for_window(hwnd) {
            Some(idx) => idx,
            None => {
                return Err(WorkspaceError::NoContainerOrWindow);
            },
        };
        container.focus_window(window_idx);
        self.containers.focus(container_idx);
        assert(self@.containers =~= old(self)@.containers.update(
            container_idx as int,
            old(self)@.containers[container_idx as int].focus_window(window_idx as nat),
        ));
        Ok(())
    }
}

} // verus!
