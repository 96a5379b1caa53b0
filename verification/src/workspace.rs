//! One virtual desktop's window-arrangement state.
use vstd::prelude::*;
use crate::config::append_custom_rules;
use crate::config::append_default_rules;
use crate::config::WorkspaceConfig;
use crate::container::container_views;
use crate::container::index_view;
use crate::container::name_view;
use crate::container::option_view;
use crate::container::Container;
use crate::layout::Axis;
use crate::layout::DefaultLayout;
use crate::layout::Layout;
use crate::model::WorkspaceView;
use crate::rect::Rect;
use crate::ring::Ring;
use crate::window::Window;

pub mod accessors;
pub mod commands;
pub mod placement;
pub mod queries;
pub mod reaping;

verus! {

/// The padding round the work area of a workspace that was given none.
pub const DEFAULT_WORKSPACE_PADDING: i32 = 10;

/// The padding round each container of a workspace that was given none.
pub const DEFAULT_CONTAINER_PADDING: i32 = 10;

/// The window-arrangement state of one virtual desktop: the ring of tiled
/// containers, the monocle container, the maximized window, the floating
/// windows, and the layout settings.
#[derive(Debug)]
pub struct Workspace {
    name: Option<String>,
    containers: Ring<Container>,
    monocle_container: Option<Container>,
    monocle_container_restore_idx: Option<usize>,
    maximized_window: Option<Window>,
    maximized_window_restore_idx: Option<usize>,
    floating_windows: Vec<Window>,
    layout: Layout,
    layout_rules: Vec<(usize, Layout)>,
    layout_flip: Option<Axis>,
    workspace_padding: Option<i32>,
    container_padding: Option<i32>,
    latest_layout: Vec<Rect>,
    resize_dimensions: Vec<Option<Rect>>,
    tile: bool,
    is_poker_workspace: bool,
}

impl View for Workspace {
    type V = WorkspaceView;

    closed spec fn view(&self) -> WorkspaceView {
        WorkspaceView {
            name: name_view(self.name),
            containers: container_views(self.containers@),
            focused: self.containers.spec_focused_idx() as nat,
            monocle_container: option_view(self.monocle_container),
            monocle_container_restore_idx: index_view(self.monocle_container_restore_idx),
            maximized_window: self.maximized_window,
            maximized_window_restore_idx: index_view(self.maximized_window_restore_idx),
            floating_windows: self.floating_windows@,
            layout: self.layout,
            layout_rules: self.layout_rules@,
            layout_flip: self.layout_flip,
            workspace_padding: self.workspace_padding,
            container_padding: self.container_padding,
            latest_layout: self.latest_layout@,
            resize_dimensions: self.resize_dimensions@,
            tile: self.tile,
            is_poker_workspace: self.is_poker_workspace,
        }
    }
}

impl Workspace {
    /// The validity of a workspace: every ring in it keeps the focus
    /// invariant.
    pub open spec fn wf(&self) -> bool {
        self@.wf()
    }

    /// Whether every ring of the workspace keeps the focus invariant.
    pub fn is_well_formed(&self) -> (b: bool)
        ensures
            b == self.wf(),
    {
        if !self.containers.is_well_formed() {
            return false;
        }
        if let Some(container) = &self.monocle_container {
            if !container.is_well_formed() {
                return false;
            }
        }
        let containers = self.containers.elements();
        let mut i: usize = 0;
        while i < containers.len()
            invariant
                i <= containers.len(),
                containers@ == self.containers@,
                forall|j: int| 0 <= j < i ==> (#[trigger] self@.containers[j]).wf(),
            decreases containers.len() - i,
        {
            if !containers[i].is_well_formed() {
                assert(!self@.containers[i as int].wf());
                return false;
            }
            i = i + 1;
        }
        true
    }

    /// Takes over a static configuration: the name, and with it whether this
    /// is a poker workspace; the paddings that the configuration gives; the
    /// layout that it selects, a custom one before a built-in one, and
    /// whether the workspace tiles at all, which it does exactly when the
    /// configuration selects a layout; and the layout rules, where those for
    /// built-in layouts replace the rules in force and those for custom
    /// layouts are added behind.
    pub fn load_static_config(&mut self, config: &WorkspaceConfig)
        requires
            old(self).wf(),
        ensures
            final(self)@ == old(self)@.load_static_config(*config),
            final(self).wf(),
    {
        let poker = "POKER".to_owned();
        self.name = Some(config.name.clone());
        self.is_poker_workspace = config.name == poker;
        if config.container_padding.is_some() {
            self.container_padding = config.container_padding;
        }
        if config.workspace_padding.is_some() {
            self.workspace_padding = config.workspace_padding;
        }
        if let Some(layout) = config.layout {
            self.layout = Layout::Default(layout);
        }
        if let Some(custom) = config.custom_layout {
            self.layout = Layout::Custom(custom);
        }
        self.tile = config.layout.is_some() || config.custom_layout.is_some();
        if let Some(rules) = &config.layout_rules {
            let mut all_rules: Vec<(usize, Layout)> = Vec::new();
            append_default_rules(&mut all_rules, rules);
            self.layout_rules = all_rules;
        }
        if let Some(rules) = &config.custom_layout_rules {
            append_custom_rules(&mut self.layout_rules, rules);
        }
        assert(self@.layout_rules =~= config.selected_rules(old(self)@.layout_rules));
    }
}

/// A copy of a vector of plain values.
fn copy_of<T: Copy>(items: &Vec<T>) -> (r: Vec<T>)
    ensures
        r@ == items@,
{
    let mut copy: Vec<T> = Vec::new();
    let mut i: usize = 0;
    while i < items.len()
        invariant
            i <= items.len(),
            copy@ == items@.take(i as int),
        decreases items.len() - i,
    {
        copy.push(items[i]);
        i = i + 1;
        assert(copy@ =~= items@.take(i as int));
    }
    assert(items@.take(i as int) =~= items@);
    copy
}

impl Clone for Workspace {
    fn clone(&self) -> (ws: Workspace)
        ensures
            ws@ == self@,
    {
        let ws = Workspace {
            name: match &self.name {
                Some(name) => Some(name.clone()),
                None => None,
            },
            containers: self.containers.clone(),
            monocle_container: match &self.monocle_container {
                Some(container) => Some(container.clone()),
                None => None,
            },
            monocle_container_restore_idx: self.monocle_container_restore_idx,
            maximized_window: self.maximized_window,
            maximized_window_restore_idx: self.maximized_window_restore_idx,
            floating_windows: copy_of(&self.floating_windows),
            layout: self.layout,
            layout_rules: copy_of(&self.layout_rules),
            layout_flip: self.layout_flip,
            workspace_padding: self.workspace_padding,
            container_padding: self.container_padding,
            latest_layout: copy_of(&self.latest_layout),
            resize_dimensions: copy_of(&self.resize_dimensions),
            tile: self.tile,
            is_poker_workspace: self.is_poker_workspace,
        };
        assert(ws@.containers =~= self@.containers);
        ws
    }
}

impl Default for Workspace {
    fn default() -> (ws: Workspace)
        ensures
            ws@ == (WorkspaceView {
                name: None,
                containers: Seq::empty(),
                focused: 0,
                monocle_container: None,
                monocle_container_restore_idx: None,
                maximized_window: None,
                maximized_window_restore_idx: None,
                floating_windows: Seq::empty(),
                layout: Layout::Default(DefaultLayout::BSP),
                layout_rules: Seq::empty(),
                layout_flip: None,
                workspace_padding: Some(DEFAULT_WORKSPACE_PADDING),
                container_padding: Some(DEFAULT_CONTAINER_PADDING),
                latest_layout: Seq::empty(),
                resize_dimensions: Seq::empty(),
                tile: true,
                is_poker_workspace: false,
            }),
            ws.wf(),
    {
        let ws = Workspace {
            name: None,
            containers: Ring::new(),
            monocle_container: None,
            monocle_container_restore_idx: None,
            maximized_window: None,
            maximized_window_restore_idx: None,
            floating_windows: Vec::new(),
            layout: Layout::Default(DefaultLayout::BSP),
            layout_rules: Vec::new(),
            layout_flip: None,
            workspace_padding: Some(DEFAULT_WORKSPACE_PADDING),
            container_padding: Some(DEFAULT_CONTAINER_PADDING),
            latest_layout: Vec::new(),
            resize_dimensions: Vec::new(),
            tile: true,
            is_poker_workspace: false,
        };
        assert(ws@.containers =~= Seq::empty());
        ws
    }
}

} // verus!
