//! A candidate icon and its mathematical model.

use vstd::prelude::*;

verus! {

/// One possible icon address with its preference score (lower is better).
#[derive(Debug)]
pub struct Icon {
    pub priority: u8,
    pub href: String,
}

/// What an [`Icon`] stands for: its score and the characters of its address.
pub ghost struct IconView {
    pub priority: u8,
    pub href: Seq<char>,
}

impl View for Icon {
    type V = IconView;

    open spec fn view(&self) -> IconView {
        IconView { priority: self.priority, href: self.href@ }
    }
}

/// The models of a list of icons, in order.
pub open spec fn icon_views(icons: Seq<Icon>) -> Seq<IconView> {
    icons.map_values(|icon: Icon| icon@)
}

impl Icon {
    pub fn new(priority: u8, href: String) -> (icon: Icon)
        ensures
            icon@ == (IconView { priority, href: href@ }),
            icon.priority == priority,
            icon.href == href,
    {
        Icon { href, priority }
    }
}

} // verus!
