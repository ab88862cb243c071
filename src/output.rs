//! Output nodes and their choice among the open viewport tabs, and the small
//! settings types of the editor.
use vstd::prelude::*;
use crate::node::OutputNode;
use crate::subscription::NodeId;

verus! {

/// The titles in `s` other than `title`, in order.
pub open spec fn without_title(s: Seq<String>, title: Seq<char>) -> Seq<String>
    decreases s.len(),
{
    if s.len() == 0 {
        s
    } else {
        let rest = without_title(s.drop_last(), title);
        if s.last()@ == title {
            rest
        } else {
            rest.push(s.last())
        }
    }
}

/// Some title in `s` reads `title`.
pub open spec fn has_title(s: Seq<String>, title: Seq<char>) -> bool {
    exists|i: int| 0 <= i < s.len() && (#[trigger] s[i])@ == title
}

impl OutputNode {
    pub fn new(tab_titles: Vec<String>, selected_title: Option<String>) -> (r: Self)
        ensures
            r.tab_titles@ == tab_titles@,
            r.selected_title == selected_title,
    {
        OutputNode { tab_titles, selected_title }
    }

    pub fn selected_title(&self) -> (r: Option<&String>)
        ensures
            match r {
                Some(t) => self.selected_title == Some(*t),
                None => self.selected_title is None,
            },
    {
        match &self.selected_title {
            Some(t) => Some(t),
            None => None,
        }
    }

    pub fn contains_tab(&self, title: &str) -> (r: bool)
        ensures
            r == has_title(self.tab_titles@, title@),
    {
        let owned = title.to_owned();
        let mut i: usize = 0;
        while i < self.tab_titles.len()
            invariant
                i <= self.tab_titles@.len(),
                owned@ == title@,
                forall|j: int| 0 <= j < i ==> (#[trigger] self.tab_titles@[j])@ != title@,
            decreases self.tab_titles@.len() - i,
        {
            if self.tab_titles[i] == owned {
                return true;
            }
            i = i + 1;
        }
        false
    }

    /// Replaces the offered titles; a selection that is no longer offered is
    /// dropped.
    pub fn set_open_tab_titles(&mut self, tab_titles: Vec<String>)
        ensures
            final(self).tab_titles@ == tab_titles@,
            match old(self).selected_title {
                Some(t) => if has_title(tab_titles@, t@) {
                    final(self).selected_title == Some(t)
                } else {
                    final(self).selected_title is None
                },
                None => final(self).selected_title is None,
            },
    {
        self.tab_titles = tab_titles;
        let keep = match &self.selected_title {
            Some(t) => self.contains_tab(t.as_str()),
            None => false,
        };
        if !keep {
            self.selected_title = None;
        }
    }

    /// Offers the title of a newly opened viewport, unless it is offered.
    pub fn open_tab(&mut self, title: &str)
        ensures
            final(self).selected_title == old(self).selected_title,
            has_title(old(self).tab_titles@, title@) ==> final(self).tab_titles@ == old(self).tab_titles@,
            !has_title(old(self).tab_titles@, title@) ==> final(self).tab_titles@.len() == old(
                self,
            ).tab_titles@.len() + 1 && final(self).tab_titles@.drop_last() == old(self).tab_titles@
                && final(self).tab_titles@.last()@ == title@,
    {
        if !self.contains_tab(title) {
            self.tab_titles.push(title.to_owned());
            assert(self.tab_titles@.drop_last() =~= old(self).tab_titles@);
        }
    }

    /// Stops offering `title`; a selection of it is dropped.
    pub fn remove_tab(&mut self, title: &str)
        ensures
            final(self).tab_titles@ == without_title(old(self).tab_titles@, title@),
            match old(self).selected_title {
                Some(t) => if t@ == title@ {
                    final(self).selected_title is None
                } else {
                    final(self).selected_title == Some(t)
                },
                None => final(self).selected_title is None,
            },
    {
        let owned = title.to_owned();
        let mut kept: Vec<String> = Vec::new();
        let mut i: usize = 0;
        while i < self.tab_titles.len()
            invariant
                i <= self.tab_titles@.len(),
                owned@ == title@,
                self.tab_titles == old(self).tab_titles,
                self.selected_title == old(self).selected_title,
                kept@ == without_title(self.tab_titles@.subrange(0, i as int), title@),
            decreases self.tab_titles@.len() - i,
        {
            assert(self.tab_titles@.subrange(0, i + 1).drop_last() == self.tab_titles@.subrange(0, i as int));
            if !(self.tab_titles[i] == owned) {
                kept.push(self.tab_titles[i].clone());
            }
            i = i + 1;
        }
        assert(self.tab_titles@.subrange(0, self.tab_titles@.len() as int) == self.tab_titles@);
        self.tab_titles = kept;
        let drop = match &self.selected_title {
            Some(t) => *t == owned,
            None => false,
        };
        if drop {
            self.selected_title = None;
        }
    }
}

/// Where a render node's picture goes.
#[derive(Clone, Debug, PartialEq, Eq)]
pub enum RenderTarget {
    Viewport(String),
}

impl RenderTarget {
    pub fn title(&self) -> (r: &str)
        ensures
            match self {
                RenderTarget::Viewport(t) => r@ == t@,
            },
    {
        match self {
            RenderTarget::Viewport(title) => title.as_str(),
        }
    }
}

/// A render node as registered for drawing: the node, the output node it
/// feeds, and where the picture goes.
#[derive(Clone, Debug, PartialEq, Eq)]
pub struct RenderNodeData {
    pub id: NodeId,
    pub output_id: NodeId,
    pub target: RenderTarget,
}

/// Which registered render nodes an operation applies to.
#[derive(Clone, Copy, Debug)]
pub enum RenderSelector<'a> {
    All,
    ById(NodeId),
    ByOutputId(NodeId),
    ByTargetTitle(&'a str),
}

impl RenderNodeData {
    pub fn select(&self, selector: RenderSelector) -> (r: bool)
        ensures
            r == match selector {
                RenderSelector::All => true,
                RenderSelector::ById(n) => self.id == n,
                RenderSelector::ByOutputId(n) => self.output_id == n,
                RenderSelector::ByTargetTitle(t) => match self.target {
                    RenderTarget::Viewport(title) => title@ == t@,
                },
            },
    {
        match selector {
            RenderSelector::All => true,
            RenderSelector::ById(n) => self.id == n,
            RenderSelector::ByOutputId(n) => self.output_id == n,
            RenderSelector::ByTargetTitle(t) => {
                let wanted = t.to_owned();
                match &self.target {
                    RenderTarget::Viewport(title) => *title == wanted,
                }
            },
        }
    }
}

/// Whether a viewport tab edits its graph or only shows the picture.
#[derive(Clone, Copy, Debug, PartialEq, Eq, Structural)]
pub enum EditMode {
    Editing,
    View,
}

impl EditMode {
    /// Flips the mode and returns the new one.
    pub fn switch(&mut self) -> (r: Self)
        ensures
            *old(self) == EditMode::Editing ==> *final(self) == EditMode::View,
            *old(self) == EditMode::View ==> *final(self) == EditMode::Editing,
            r == *final(self),
    {
        match self {
            EditMode::Editing => *self = EditMode::View,
            EditMode::View => *self = EditMode::Editing,
        }
        *self
    }
}

impl Default for EditMode {
    fn default() -> (r: Self)
        ensures
            r == EditMode::Editing,
    {
        EditMode::Editing
    }
}

/// Keys of the editor's interface layers.
#[derive(Clone, Copy, Debug, PartialEq, Eq, Hash, Structural)]
pub enum UiIdKey {
    Nodes,
    RenderArea,
    EditingArea,
    OverlayArea,
    OverlayBlocker,
}

/// Where log lines go and which are kept.
#[derive(Debug)]
pub struct LoggerConfig {
    pub filter: String,
    pub path: Option<String>,
    pub print_to_stdout: bool,
    pub compact: bool,
}

impl LoggerConfig {
    pub fn default_filter() -> (r: String)
        ensures
            r@ == "info"@,
    {
        proof {
            reveal_strlit("info");
        }
        "info".to_owned()
    }

    pub fn default_print_to_stdout() -> (r: bool)
        ensures
            r,
    {
        true
    }

    pub fn default_compact() -> (r: bool)
        ensures
            r,
    {
        true
    }
}

impl Default for LoggerConfig {
    fn default() -> (r: Self)
        ensures
            r.filter@ == "info"@,
            r.path is None,
            r.print_to_stdout,
            r.compact,
    {
        LoggerConfig {
            filter: Self::default_filter(),
            path: None,
            print_to_stdout: Self::default_print_to_stdout(),
            compact: Self::default_compact(),
        }
    }
}

} // verus!
