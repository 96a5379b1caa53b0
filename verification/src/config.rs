//! The static configuration of a workspace.
use vstd::prelude::*;
use crate::layout::CustomLayout;
use crate::layout::DefaultLayout;
use crate::layout::Layout;

verus! {

/// What a configuration file says of one workspace. Custom layouts stand
/// here as they were loaded, and the layout rules in the order in which they
/// are to be applied.
#[derive(Debug)]
pub struct WorkspaceConfig {
    pub name: String,
    pub container_padding: Option<i32>,
    pub workspace_padding: Option<i32>,
    pub layout: Option<DefaultLayout>,
    pub custom_layout: Option<CustomLayout>,
    /// Built-in layouts to switch to at given numbers of containers.
    pub layout_rules: Option<Vec<(usize, DefaultLayout)>>,
    /// Custom layouts to switch to at given numbers of containers.
    pub custom_layout_rules: Option<Vec<(usize, CustomLayout)>>,
}

/// The name that marks a workspace as a poker workspace.
pub open spec fn poker_name() -> Seq<char> {
    "POKER"@
}

/// Rules for built-in layouts as layout rules.
pub open spec fn default_rules(rules: Seq<(usize, DefaultLayout)>) -> Seq<(usize, Layout)> {
    Seq::new(rules.len(), |i: int| (rules[i].0, Layout::Default(rules[i].1)))
}

/// Rules for custom layouts as layout rules.
pub open spec fn custom_rules(rules: Seq<(usize, CustomLayout)>) -> Seq<(usize, Layout)> {
    Seq::new(rules.len(), |i: int| (rules[i].0, Layout::Custom(rules[i].1)))
}

impl WorkspaceConfig {
    /// The layout that the configuration selects: its custom layout if it
    /// has one, else its built-in layout if it has one.
    pub open spec fn selected_layout(self) -> Option<Layout> {
        match self.custom_layout {
            Some(custom) => Some(Layout::Custom(custom)),
            None => match self.layout {
                Some(layout) => Some(Layout::Default(layout)),
                None => None,
            },
        }
    }

    /// The layout rules that the configuration leads to, given the rules
    /// `current` that are in force: its rules for built-in layouts replace
    /// them, and its rules for custom layouts are added behind.
    pub open spec fn selected_rules(self, current: Seq<(usize, Layout)>) -> Seq<(usize, Layout)> {
        (match self.layout_rules {
            Some(rules) => default_rules(rules@),
            None => current,
        }) + (match self.custom_layout_rules {
            Some(rules) => custom_rules(rules@),
            None => Seq::empty(),
        })
    }
}

/// Appends to `rules` the rules for built-in layouts in `added`.
pub fn append_default_rules(rules: &mut Vec<(usize, Layout)>, added: &Vec<(usize, DefaultLayout)>)
    ensures
        final(rules)@ == old(rules)@ + default_rules(added@),
{
    let mut i: usize = 0;
    assert(rules@ =~= old(rules)@ + default_rules(added@).take(0));
    while i < added.len()
        invariant
            i <= added.len(),
            rules@ == old(rules)@ + default_rules(added@).take(i as int),
        decreases added.len() - i,
    {
        let rule = added[i];
        rules.push((rule.0, Layout::Default(rule.1)));
        i = i + 1;
        assert(rules@ =~= old(rules)@ + default_rules(added@).take(i as int));
    }
    assert(default_rules(added@).take(i as int) =~= default_rules(added@));
}

/// Appends to `rules` the rules for custom layouts in `added`.
pub fn append_custom_rules(rules: &mut Vec<(usize, Layout)>, added: &Vec<(usize, CustomLayout)>)
    ensures
        final(rules)@ == old(rules)@ + custom_rules(added@),
{
    let mut i: usize = 0;
    assert(rules@ =~= old(rules)@ + custom_rules(added@).take(0));
    while i < added.len()
        invariant
            i <= added.len(),
            rules@ == old(rules)@ + custom_rules(added@).take(i as int),
        decreases added.len() - i,
    {
        let rule = added[i];
        rules.push((rule.0, Layout::Custom(rule.1)));
        i = i + 1;
        assert(rules@ =~= old(rules)@ + custom_rules(added@).take(i as int));
    }
    assert(custom_rules(added@).take(i as int) =~= custom_rules(added@));
}

} // verus!
