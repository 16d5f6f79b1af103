//! The view of one article.
use vstd::prelude::*;

verus! {

/// Messages of the article view: open the article in the browser, or follow a
/// link of its text.
#[derive(Clone, Debug)]
pub enum FeedViewM {
    Open,
    LinkClicked(String),
}

} // verus!
