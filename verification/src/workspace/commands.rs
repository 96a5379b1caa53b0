//! The commands that show, hide and seat the windows of a workspace.
use vstd::prelude::*;
use crate::error::WorkspaceError;
use crate::model::tiled_hide;
use crate::model::tiled_restore;
use crate::poker::seat_visible_windows;
use crate::poker::PokerConfig;
use crate::rect::Rect;
use crate::window::append_hide_all;
use crate::window::append_restore_all;
use crate::window::ring_append_hide_all;
use crate::window::ring_append_restore_all;
use crate::window::PlatformCommand;
use crate::workspace::Workspace;

verus! {

impl Workspace {
    /// The commands that take every window of the workspace off the screen:
    /// the tiled windows container by container, then the maximized window,
    /// then the windows of the monocle container, then the floating
    /// windows.
    pub fn hide_windows(&self) -> (commands: Vec<PlatformCommand>)
        ensures
            commands@ == self@.hide_windows(),
    {
        let containers = self.containers.elements();
        let mut commands: Vec<PlatformCommand> = Vec::new();
        let mut i: usize = 0;
        while i < containers.len()
            invariant
                i <= containers.len(),
                containers@ == self.containers@,
                commands@ == tiled_hide(self@.containers.take(i as int)),
            decreases containers.len() - i,
        {
            ring_append_hide_all(&mut commands, containers[i].windows());
            proof {
                let next = self@.containers.take(i as int + 1);
                assert(next.drop_last() =~= self@.containers.take(i as int));
                assert(next.last() == self@.containers[i as int]);
            }
            i = i + 1;
        }
        assert(self@.containers.take(i as int) =~= self@.containers);
        if let Some(window) = self.maximized_window {
            commands.push(PlatformCommand::Hide(window.hwnd));
        }
        if let Some(container) = &self.monocle_container {
            ring_append_hide_all(&mut commands, container.windows());
        }
        append_hide_all(&mut commands, &self.floating_windows);
        assert(commands@ =~= self@.hide_windows());
        commands
    }

    /// The commands that put the workspace back on the screen: the visible
    /// window of every tiled container is restored, the maximized window is
    /// maximized, the windows of the monocle container and the floating
    /// windows are restored, and last the visible window of the focused
    /// container is given the input focus, unless a window is maximized.
    pub fn restore(&self, mouse_follows_focus: bool) -> (commands: Vec<PlatformCommand>)
        ensures
            commands@ == self@.restore(mouse_follows_focus),
    {
        let containers = self.containers.elements();
        let mut commands: Vec<PlatformCommand> = Vec::new();
        let mut i: usize = 0;
        while i < containers.len()
            invariant
                i <= containers.len(),
                containers@ == self.containers@,
                commands@ == tiled_restore(self@.containers.take(i as int)),
            decreases containers.len() - i,
        {
            if let Some(window) = containers[i].focused_window() {
                commands.push(PlatformCommand::Restore(window.hwnd));
            }
            proof {
                let next = self@.containers.take(i as int + 1);
                assert(next.drop_last() =~= self@.containers.take(i as int));
                assert(next.last() == self@.containers[i as int]);
                assert(commands@ =~= tiled_restore(next));
            }
            i = i + 1;
        }
        assert(self@.containers.take(i as int) =~= self@.containers);
        if let Some(window) = self.maximized_window {
            commands.push(PlatformCommand::Maximize(window.hwnd));
        }
        if let Some(container) = &self.monocle_container {
            ring_append_restore_all(&mut commands, container.windows());
        }
        append_restore_all(&mut commands, &self.floating_windows);
        if self.maximized_window.is_none() {
            if let Some(container) = self.containers.focused() {
                if let Some(window) = container.focused_window() {
                    commands.push(PlatformCommand::Focus(window.hwnd, mouse_follows_focus));
                }
            }
        }
        assert(commands@ =~= self@.restore(mouse_follows_focus));
        commands
    }

    /// The commands that arrange a poker workspace by the seating chart
    /// `poker`: the visible window of each tiled container is seated, in
    /// display order, once for each kind of table that it was recognised as.
    /// A workspace that is no poker workspace asks for nothing. Fails where
    /// a position does not fit in 32 bits. The work area and the offset
    /// have no part in the seating.
    pub fn update(&self, _work_area: &Rect, _offset: Option<Rect>, poker: &PokerConfig) -> (r:
        Result<Vec<PlatformCommand>, WorkspaceError>)
        ensures
            match r {
                Ok(commands) => self@.update(*poker) == Ok::<Seq<PlatformCommand>, WorkspaceError>(
                    commands@,
                ),
                Err(e) => self@.update(*poker) == Err::<Seq<PlatformCommand>, WorkspaceError>(e),
            },
    {
        if !self.is_poker_workspace {
            return Ok(Vec::new());
        }
        match seat_visible_windows(self.containers.elements(), poker) {
            Some(commands) => Ok(commands),
            None => Err(WorkspaceError::PositionOutOfRange),
        }
    }
}

} // verus!
