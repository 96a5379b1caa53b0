//! Reaping: removing the windows that the platform no longer knows.
use vstd::prelude::*;
use crate::model::stale_visible;
use crate::window::handle_listed;
use crate::window::remove_handles;
use crate::window::stale_handles;
use crate::window::PlatformCommand;
use crate::workspace::Workspace;

verus! {

impl Workspace {
    /// The handles of the visible windows that are listed in `stale`.
    fn stale_visible_handles(&self, stale: &Vec<isize>) -> (r: Vec<isize>)
        ensures
            r@ == stale_visible(self@.containers, stale@),
            r@.len() <= self@.containers.len(),
    {
        let containers = self.containers.elements();
        let mut found: Vec<isize> = Vec::new();
        let mut i: usize = 0;
        while i < containers.len()
            invariant
                i <= containers.len(),
                containers@ == self.containers@,
                found@ == stale_visible(self@.containers.take(i as int), stale@),
                found@.len() <= i,
            decreases containers.len() - i,
        {
            proof {
                let next = self@.containers.take(i as int + 1);
                assert(next.drop_last() =~= self@.containers.take(i as int));
                assert(next.last() == self@.containers[i as int]);
            }
            if let Some(window) = containers[i].focused_window() {
                if handle_listed(stale, window.hwnd) {
                    found.push(window.hwnd);
                }
            }
            i = i + 1;
        }
        assert(self@.containers.take(i as int) =~= self@.containers);
        found
    }

    /// Removes every container without windows, with the size override at
    /// its index.
    fn purge_empty_containers(&mut self)
        requires
            old(self).wf(),
        ensures
            final(self)@ == old(self)@.purge_empty_containers(),
            final(self)@.containers.len() <= old(self)@.containers.len(),
            final(self).wf(),
    {
        let mut upto = self.containers.len();
        assert(upto == self@.containers.len());
        while upto > 0
            invariant
                self.wf(),
                self@.purge_from(upto as nat) == old(self)@.purge_empty_containers(),
                self@.containers.len() <= old(self)@.containers.len(),
            decreases upto,
        {
            let idx = upto - 1;
            let empty = match self.containers.get(idx) {
                Some(container) => container.is_empty(),
                None => false,
            };
            if empty {
                self.remove_container_by_idx(idx);
            }
            upto = idx;
        }
    }

    /// A reaping pass. `stale` lists the handles that failed the platform's
    /// liveness probe. Every visible tiled window and every floating window
    /// whose handle is listed is removed, the tiled ones as
    /// [`Self::remove_window`] does it; then every container without windows
    /// is removed. Returns the number of windows reaped and the number of
    /// empty containers removed at the end, and the commands that are due.
    pub fn reap_orphans(&mut self, stale: &Vec<isize>) -> (r: ((usize, usize), Vec<PlatformCommand>))
        requires
            old(self).wf(),
            old(self)@.containers.len() + old(self)@.floating_windows.len() <= usize::MAX,
        ensures
            final(self)@ == old(self)@.reap_orphans(stale@).workspace,
            r.1@ == old(self)@.reap_orphans(stale@).commands,
            r.0.0 == old(self)@.reap_orphans(stale@).windows,
            r.0.1 == old(self)@.reap_orphans(stale@).containers,
            final(self).wf(),
    {
        let hwnds = self.stale_visible_handles(stale);
        let floating_hwnds = stale_handles(&self.floating_windows, stale);
        let mut commands: Vec<PlatformCommand> = Vec::new();
        let mut i: usize = 0;
        while i < hwnds.len()
            invariant
                i <= hwnds.len(),
                self.wf(),
                self@ == old(self)@.remove_windows(hwnds@.take(i as int)).workspace,
                commands@ == old(self)@.remove_windows(hwnds@.take(i as int)).commands,
            decreases hwnds.len() - i,
        {
            proof {
                let next = hwnds@.take(i as int + 1);
                assert(next.drop_last() =~= hwnds@.take(i as int));
                assert(next.last() == hwnds@[i as int]);
            }
            match self.remove_window(hwnds[i]) {
                Ok(mut step) => {
                    commands.append(&mut step);
                },
                Err(_) => {},
            }
            i = i + 1;
        }
        assert(hwnds@.take(i as int) =~= hwnds@);
        remove_handles(&mut self.floating_windows, &floating_hwnds);
        let before = self.containers.len();
        assert(before == self@.containers.len());
        self.purge_empty_containers();
        let after = self.containers.len();
        assert(after == self@.containers.len());
        ((hwnds.len() + floating_hwnds.len(), before - after), commands)
    }
}

} // verus!
