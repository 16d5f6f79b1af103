//! The sidebar: which feeds have unread articles, and the navigation it offers.
use vstd::prelude::*;
use crate::model::Nav;

verus! {

/// Messages of the sidebar.
#[derive(Debug)]
pub enum SidebarM {
    ExpandUnread,
    ExpandAll,
    Select((usize, Nav)),
}

} // verus!
