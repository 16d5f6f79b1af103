//! The page that adds an online feed.
use vstd::prelude::*;

verus! {

/// Messages of the page that adds an online feed.
#[derive(Clone, Debug)]
pub enum AddM {
    Add,
    ChangeUrl(String),
    PasteUrl,
    PasteName,
    ChangeName(String),
}

} // verus!
