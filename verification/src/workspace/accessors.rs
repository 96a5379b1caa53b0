//! The fields of a workspace, to read and to set.
use vstd::prelude::*;
use std::collections::VecDeque;
use crate::container::container_views;
use crate::container::index_view;
use crate::container::name_view;
use crate::container::option_view;
use crate::container::Container;
use crate::layout::Axis;
use crate::layout::Layout;
use crate::model::WorkspaceView;
use crate::rect::Rect;
use crate::ring::Ring;
use crate::window::Window;
use crate::workspace::Workspace;

verus! {

impl Workspace {
    /// The name of the workspace.
    pub fn name(&self) -> (r: &Option<String>)
        ensures
            name_view(*r) == self@.name,
    {
        &self.name
    }

    /// Names the workspace.
    pub fn set_name(&mut self, name: Option<String>)
        requires
            old(self).wf(),
        ensures
            final(self)@ == (WorkspaceView { name: name_view(name), ..old(self)@ }),
            final(self).wf(),
    {
        self.name = name;
    }

    /// The tiled containers in display order.
    pub fn containers(&self) -> (r: &VecDeque<Container>)
        ensures
            container_views(r@) == self@.containers,
    {
        self.containers.elements()
    }

    /// The ring of tiled containers, to change it in place. The size
    /// overrides do not follow what is done to the ring through this borrow.
    pub fn containers_mut(&mut self) -> (r: &mut Ring<Container>)
        ensures
            container_views(r@) == old(self)@.containers,
            r.spec_focused_idx() == old(self)@.focused,
            final(self)@ == (WorkspaceView {
                containers: container_views(final(r)@),
                focused: final(r).spec_focused_idx() as nat,
                ..old(self)@
            }),
    {
        &mut self.containers
    }

    /// The focused container, if the cursor points at one.
    pub fn focused_container(&self) -> (r: Option<&Container>)
        ensures
            match r {
                Some(c) => self@.focused_container() == Some(c@),
                None => self@.focused_container().is_none(),
            },
    {
        self.containers.focused()
    }

    /// The index of the focused container; zero for an empty ring.
    pub fn focused_container_idx(&self) -> (idx: usize)
        ensures
            idx == self@.focused,
    {
        self.containers.focused_idx()
    }

    /// A mutable borrow of the focused container, if the cursor points at
    /// one.
    pub fn focused_container_mut(&mut self) -> (r: Option<&mut Container>)
        ensures
            old(self)@.focused_container().is_none() ==> r.is_none() && *final(self) == *old(self),
            old(self)@.focused_container().is_some() ==> match r {
                Some(c) => {
                    &&& Some(c@) == old(self)@.focused_container()
                    &&& final(self)@ == (WorkspaceView {
                        containers: old(self)@.containers.update(
                            old(self)@.focused as int,
                            final(c)@,
                        ),
                        ..old(self)@
                    })
                },
                None => false,
            },
    {
        match self.containers.focused_mut() {
            Some(c) => {
                proof {
                    assert(container_views(
                        old(self).containers@.update(old(self)@.focused as int, *final(c)),
                    ) =~= old(self)@.containers.update(old(self)@.focused as int, final(c)@));
                }
                Some(c)
            },
            None => None,
        }
    }

    /// The monocle container.
    pub fn monocle_container(&self) -> (r: &Option<Container>)
        ensures
            option_view(*r) == self@.monocle_container,
    {
        &self.monocle_container
    }

    /// The monocle slot, to change it in place.
    pub fn monocle_container_mut(&mut self) -> (r: &mut Option<Container>)
        ensures
            option_view(*r) == old(self)@.monocle_container,
            final(self)@ == (WorkspaceView {
                monocle_container: option_view(*final(r)),
                ..old(self)@
            }),
    {
        &mut self.monocle_container
    }

    /// Fills or clears the monocle slot.
    pub fn set_monocle_container(&mut self, monocle_container: Option<Container>)
        requires
            old(self).wf(),
            monocle_container matches Some(c) ==> c.wf(),
        ensures
            final(self)@ == (WorkspaceView { monocle_container: option_view(monocle_container), ..old(self)@ }),
            final(self).wf(),
    {
        self.monocle_container = monocle_container;
    }

    /// The index at which the monocle container returns to the ring.
    pub fn monocle_container_restore_idx(&self) -> (r: Option<usize>)
        ensures
            index_view(r) == self@.monocle_container_restore_idx,
    {
        self.monocle_container_restore_idx
    }

    /// Sets the index at which the monocle container returns to the ring.
    pub fn set_monocle_container_restore_idx(&mut self, monocle_container_restore_idx: Option<usize>)
        requires
            old(self).wf(),
        ensures
            final(self)@ == (WorkspaceView {
                monocle_container_restore_idx: index_view(monocle_container_restore_idx),
                ..old(self)@
            }),
            final(self).wf(),
    {
        self.monocle_container_restore_idx = monocle_container_restore_idx;
    }

    /// The maximized window.
    pub fn maximized_window(&self) -> (r: &Option<Window>)
        ensures
            *r == self@.maximized_window,
    {
        &self.maximized_window
    }

    /// The maximized slot, to change it in place.
    pub fn maximized_window_mut(&mut self) -> (r: &mut Option<Window>)
        ensures
            *r == old(self)@.maximized_window,
            final(self)@ == (WorkspaceView { maximized_window: *final(r), ..old(self)@ }),
    {
        &mut self.maximized_window
    }

    /// Fills or clears the maximized slot.
    pub fn set_maximized_window(&mut self, maximized_window: Option<Window>)
        requires
            old(self).wf(),
        ensures
            final(self)@ == (WorkspaceView { maximized_window: maximized_window, ..old(self)@ }),
            final(self).wf(),
    {
        self.maximized_window = maximized_window;
    }

    /// The index at which the maximized window returns to the ring.
    pub fn maximized_window_restore_idx(&self) -> (r: Option<usize>)
        ensures
            index_view(r) == self@.maximized_window_restore_idx,
    {
        self.maximized_window_restore_idx
    }

    /// Sets the index at which the maximized window returns to the ring.
    pub fn set_maximized_window_restore_idx(&mut self, maximized_window_restore_idx: Option<usize>)
        requires
            old(self).wf(),
        ensures
            final(self)@ == (WorkspaceView {
                maximized_window_restore_idx: index_view(maximized_window_restore_idx),
                ..old(self)@
            }),
            final(self).wf(),
    {
        self.maximized_window_restore_idx = maximized_window_restore_idx;
    }

    /// The floating windows.
    pub fn floating_windows(&self) -> (r: &Vec<Window>)
        ensures
            r@ == self@.floating_windows,
    {
        &self.floating_windows
    }

    /// The floating windows, to change them in place.
    pub fn floating_windows_mut(&mut self) -> (r: &mut Vec<Window>)
        ensures
            r@ == old(self)@.floating_windows,
            final(self)@ == (WorkspaceView { floating_windows: final(r)@, ..old(self)@ }),
    {
        &mut self.floating_windows
    }

    /// The active layout.
    pub fn layout(&self) -> (r: &Layout)
        ensures
            *r == self@.layout,
    {
        &self.layout
    }

    /// The active layout, to change it in place.
    pub fn layout_mut(&mut self) -> (r: &mut Layout)
        ensures
            *r == old(self)@.layout,
            final(self)@ == (WorkspaceView { layout: *final(r), ..old(self)@ }),
    {
        &mut self.layout
    }

    /// Sets the active layout.
    pub fn set_layout(&mut self, layout: Layout)
        requires
            old(self).wf(),
        ensures
            final(self)@ == (WorkspaceView { layout: layout, ..old(self)@ }),
            final(self).wf(),
    {
        self.layout = layout;
    }

    /// The layouts to switch to at given numbers of containers.
    pub fn layout_rules(&self) -> (r: &Vec<(usize, Layout)>)
        ensures
            r@ == self@.layout_rules,
    {
        &self.layout_rules
    }

    /// The layout rules, to change them in place.
    pub fn layout_rules_mut(&mut self) -> (r: &mut Vec<(usize, Layout)>)
        ensures
            r@ == old(self)@.layout_rules,
            final(self)@ == (WorkspaceView { layout_rules: final(r)@, ..old(self)@ }),
    {
        &mut self.layout_rules
    }

    /// Replaces the layout rules.
    pub fn set_layout_rules(&mut self, layout_rules: Vec<(usize, Layout)>)
        requires
            old(self).wf(),
        ensures
            final(self)@ == (WorkspaceView { layout_rules: layout_rules@, ..old(self)@ }),
            final(self).wf(),
    {
        self.layout_rules = layout_rules;
    }

    /// The axis along which the layout is mirrored.
    pub fn layout_flip(&self) -> (r: Option<Axis>)
        ensures
            r == self@.layout_flip,
    {
        self.layout_flip
    }

    /// Sets the axis along which the layout is mirrored.
    pub fn set_layout_flip(&mut self, layout_flip: Option<Axis>)
        requires
            old(self).wf(),
        ensures
            final(self)@ == (WorkspaceView { layout_flip: layout_flip, ..old(self)@ }),
            final(self).wf(),
    {
        self.layout_flip = layout_flip;
    }

    /// The padding round the work area.
    pub fn workspace_padding(&self) -> (r: Option<i32>)
        ensures
            r == self@.workspace_padding,
    {
        self.workspace_padding
    }

    /// Sets the padding round the work area.
    pub fn set_workspace_padding(&mut self, workspace_padding: Option<i32>)
        requires
            old(self).wf(),
        ensures
            final(self)@ == (WorkspaceView { workspace_padding: workspace_padding, ..old(self)@ }),
            final(self).wf(),
    {
        self.workspace_padding = workspace_padding;
    }

    /// The padding round each container.
    pub fn container_padding(&self) -> (r: Option<i32>)
        ensures
            r == self@.container_padding,
    {
        self.container_padding
    }

    /// Sets the padding round each container.
    pub fn set_container_padding(&mut self, container_padding: Option<i32>)
        requires
            old(self).wf(),
        ensures
            final(self)@ == (WorkspaceView { container_padding: container_padding, ..old(self)@ }),
            final(self).wf(),
    {
        self.container_padding = container_padding;
    }

    /// The rectangles that the layout last gave the tiled slots, slot by
    /// slot.
    pub fn latest_layout(&self) -> (r: &Vec<Rect>)
        ensures
            r@ == self@.latest_layout,
    {
        &self.latest_layout
    }

    /// Records the rectangles that the layout gave the tiled slots.
    pub fn set_latest_layout(&mut self, latest_layout: Vec<Rect>)
        requires
            old(self).wf(),
        ensures
            final(self)@ == (WorkspaceView { latest_layout: latest_layout@, ..old(self)@ }),
            final(self).wf(),
    {
        self.latest_layout = latest_layout;
    }

    /// The size overrides of the tiled slots, slot by slot.
    pub fn resize_dimensions(&self) -> (r: &Vec<Option<Rect>>)
        ensures
            r@ == self@.resize_dimensions,
    {
        &self.resize_dimensions
    }

    /// The size overrides, to change them in place.
    pub fn resize_dimensions_mut(&mut self) -> (r: &mut Vec<Option<Rect>>)
        ensures
            r@ == old(self)@.resize_dimensions,
            final(self)@ == (WorkspaceView { resize_dimensions: final(r)@, ..old(self)@ }),
    {
        &mut self.resize_dimensions
    }

    /// Replaces the size overrides.
    pub fn set_resize_dimensions(&mut self, resize_dimensions: Vec<Option<Rect>>)
        requires
            old(self).wf(),
        ensures
            final(self)@ == (WorkspaceView { resize_dimensions: resize_dimensions@, ..old(self)@ }),
            final(self).wf(),
    {
        self.resize_dimensions = resize_dimensions;
    }

    /// Whether the workspace tiles its containers.
    pub fn tile(&self) -> (r: &bool)
        ensures
            *r == self@.tile,
    {
        &self.tile
    }

    /// Sets whether the workspace tiles its containers.
    pub fn set_tile(&mut self, tile: bool)
        requires
            old(self).wf(),
        ensures
            final(self)@ == (WorkspaceView { tile: tile, ..old(self)@ }),
            final(self).wf(),
    {
        self.tile = tile;
    }

    /// Whether this is a poker workspace.
    pub fn is_poker_workspace(&self) -> (r: bool)
        ensures
            r == self@.is_poker_workspace,
    {
        self.is_poker_workspace
    }

    /// Sets whether this is a poker workspace.
    pub fn set_is_poker_workspace(&mut self, is_poker_workspace: bool)
        requires
            old(self).wf(),
        ensures
            final(self)@ == (WorkspaceView { is_poker_workspace: is_poker_workspace, ..old(self)@ }),
            final(self).wf(),
    {
        self.is_poker_workspace = is_poker_workspace;
    }
}

} // verus!
