//! Tests of the conditions under which the reader takes a message or shows a
//! page, for callers that hold values that nothing checked.
use vstd::prelude::*;
use crate::controls::{artikle_ok, step_ok, Controls, Message, Uniquiz};
use crate::model::{Feed, Nav, Progress};
use crate::pages::add_url::AddM;
use crate::pages::artikle_list::{entries_titled, is_unread_entry, read_list, unread_titled, ArtikleListM};
use crate::pages::feed_list::{
    add_missing, after_mark, after_read_all, all_countable, artikles_unread, contains_id, entry_ids, feeds_titled,
    find_read, lemma_first_index_found, lemma_unread_after_replace, progress_keys,
    read_position, unread_countable, unread_feeds_titled, unread_of, unread_total_fits,
    unread_total_spec, FeedListM,
};
use crate::pages::feed_view::FeedViewM;
use crate::per::Imag;
use crate::settings::SettingsM;
use crate::text::copy_texts;
use crate::views::{artikle_list_ok, feed_list_page_ok, feed_view_page_ok, sidebar_ok};

verus! {

/// Whether feed `g` can be counted once the read list of feed `fid` holds
/// `new_len` ids.
pub open spec fn countable_with(p: Seq<(Seq<char>, Seq<Seq<char>>)>, g: Feed, fid: Seq<char>, new_len: int) -> bool {
    if g.id@ == fid {
        g.entries@.len() - new_len >= 0
    } else {
        unread_countable(p, g)
    }
}

/// Whether every feed can have its unread articles counted.
pub fn all_countable_check(read: &Progress, feeds: &Vec<(Feed, Imag)>) -> (res: bool)
    ensures
        res == all_countable(read@, feeds@),
{
    let mut i: usize = 0;
    while i < feeds.len()
        invariant
            i <= feeds@.len(),
            forall|j: int| 0 <= j < i ==> #[trigger] unread_countable(read@, feeds@[j].0),
        decreases feeds@.len() - i,
    {
        if !countable_check(read, &feeds[i].0) {
            return false;
        }
        i += 1;
    }
    true
}

/// Whether a feed can have its unread articles counted.
pub fn countable_check(read: &Progress, feed: &Feed) -> (res: bool)
    ensures
        res == unread_countable(read@, *feed),
{
    proof {
        lemma_first_index_found(progress_keys(read@), feed.id@);
    }
    match find_read(read, &feed.id) {
        Some(i) => {
            assert(read@[i as int].1.len() == read.read@[i as int].1@.len());
            read.read[i].1.len() <= feed.entries.len()
        },
        None => true,
    }
}

/// Whether every feed can have its unread articles counted once the read
/// list of feed `fid` holds `new_len` ids (see `lemma_unread_after_replace`).
fn countable_after_check(read: &Progress, feeds: &Vec<(Feed, Imag)>, fid: &String, new_len: usize) -> (res: bool)
    ensures
        res == forall|j: int|
            0 <= j < feeds@.len() ==> #[trigger] countable_with(read@, feeds@[j].0, fid@, new_len as int),
{
    let mut i: usize = 0;
    while i < feeds.len()
        invariant
            i <= feeds@.len(),
            forall|j: int|
                0 <= j < i ==> #[trigger] countable_with(read@, feeds@[j].0, fid@, new_len as int),
        decreases feeds@.len() - i,
    {
        let ok = if feeds[i].0.id == *fid {
            new_len <= feeds[i].0.entries.len()
        } else {
            countable_check(read, &feeds[i].0)
        };
        assert(ok == countable_with(read@, feeds@[i as int].0, fid@, new_len as int));
        if !ok {
            return false;
        }
        i += 1;
    }
    true
}

/// The read list of `feed` after all its articles were read, given its list
/// before (see `add_missing`).
fn read_all_list(list: &Vec<String>, feed: &Feed) -> (res: Vec<String>)
    ensures
        res.deep_view() == add_missing(list.deep_view(), entry_ids(*feed)),
{
    let mut out = copy_texts(list);
    let mut k: usize = 0;
    while k < feed.entries.len()
        invariant
            k <= feed.entries@.len(),
            out.deep_view() == add_missing(list.deep_view(), entry_ids(*feed).take(k as int)),
        decreases feed.entries@.len() - k,
    {
        assert(entry_ids(*feed).take(k + 1).drop_last() =~= entry_ids(*feed).take(k as int));
        let present = contains_id(&out, &feed.entries[k].id);
        if !present {
            let ghost before = out.deep_view();
            out.push(feed.entries[k].id.clone());
            assert(out.deep_view() =~= before.push(feed.entries@[k as int].id@));
        }
        k += 1;
    }
    assert(entry_ids(*feed).take(k as int) =~= entry_ids(*feed));
    out
}

/// Whether the feeds can be counted after all articles of `feed` were read.
pub fn countable_after_read_all_check(read: &Progress, feeds: &Vec<(Feed, Imag)>, feed: &Feed) -> (res: bool)
    ensures
        res == all_countable(after_read_all(read@, *feed), feeds@),
{
    proof {
        lemma_first_index_found(progress_keys(read@), feed.id@);
    }
    let new_len = match find_read(read, &feed.id) {
        Some(i) => {
            let l = read_all_list(&read.read[i].1, feed);
            assert(read.read@[i as int].1.deep_view() == read@[i as int].1);
            l.len()
        },
        None => feed.entries.len(),
    };
    let ghost i = read_position(read@, feed.id@);
    let ghost list = if i >= 0 {
        add_missing(read@[i].1, entry_ids(*feed))
    } else {
        entry_ids(*feed)
    };
    assert(new_len == list.len());
    let res = countable_after_check(read, feeds, &feed.id, new_len);
    proof {
        let q = after_read_all(read@, *feed);
        assert forall|j: int| 0 <= j < feeds@.len() implies #[trigger] unread_countable(q, feeds@[j].0) == countable_with(read@, feeds@[j].0, feed.id@, new_len as int) by {
            lemma_unread_after_replace(read@, feed.id@, list, feeds@[j].0);
        }
        if res {
            assert forall|j: int| 0 <= j < feeds@.len() implies #[trigger] unread_countable(q, feeds@[j].0) by {
                assert(countable_with(read@, feeds@[j].0, feed.id@, new_len as int));
            }
        } else {
            let j = choose|j: int| 0 <= j < feeds@.len() && !#[trigger] countable_with(read@, feeds@[j].0, feed.id@, new_len as int);
            assert(!unread_countable(q, feeds@[j].0));
        }
    }
    res
}

/// Whether the feeds can be counted after an article of feed `fid` was
/// marked read.
fn countable_after_mark_check(read: &Progress, feeds: &Vec<(Feed, Imag)>, fid: &String, Ghost(aid): Ghost<Seq<char>>) -> (res: bool)
    ensures
        res == all_countable(after_mark(read@, fid@, aid), feeds@),
{
    proof {
        lemma_first_index_found(progress_keys(read@), fid@);
    }
    let new_len = match find_read(read, fid) {
        Some(i) => {
            assert(read@[i as int].1.len() == read.read@[i as int].1@.len());
            if read.read[i].1.len() >= usize::MAX {
                return false_after_mark(read, feeds, fid, Ghost(aid));
            }
            read.read[i].1.len() + 1
        },
        None => 1,
    };
    let res = countable_after_check(read, feeds, fid, new_len);
    proof {
        let i = read_position(read@, fid@);
        let list = if i >= 0 {
            read@[i].1.push(aid)
        } else {
            seq![aid]
        };
        let q = after_mark(read@, fid@, aid);
        assert forall|j: int| 0 <= j < feeds@.len() implies #[trigger] unread_countable(q, feeds@[j].0) == countable_with(read@, feeds@[j].0, fid@, new_len as int) by {
            lemma_unread_after_replace(read@, fid@, list, feeds@[j].0);
        }
        if res {
            assert forall|j: int| 0 <= j < feeds@.len() implies #[trigger] unread_countable(q, feeds@[j].0) by {
                assert(countable_with(read@, feeds@[j].0, fid@, new_len as int));
            }
        } else {
            let j = choose|j: int| 0 <= j < feeds@.len() && !#[trigger] countable_with(read@, feeds@[j].0, fid@, new_len as int);
            assert(!unread_countable(q, feeds@[j].0));
        }
    }
    res
}

/// The answer where a read list already holds `usize::MAX` ids: a feed with
/// that id has fewer entries (a list of entries cannot be longer), unless no
/// feed has that id, in which case the others decide.
fn false_after_mark(read: &Progress, feeds: &Vec<(Feed, Imag)>, fid: &String, Ghost(aid): Ghost<Seq<char>>) -> (res: bool)
    requires
        0 <= read_position(read@, fid@) < read@.len(),
        read@[read_position(read@, fid@)].1.len() >= usize::MAX,
    ensures
        res == all_countable(after_mark(read@, fid@, aid), feeds@),
{
    let mut i: usize = 0;
    while i < feeds.len()
        invariant
            i <= feeds@.len(),
            0 <= read_position(read@, fid@) < read@.len(),
            read@[read_position(read@, fid@)].1.len() >= usize::MAX,
            forall|j: int| 0 <= j < i ==> #[trigger] unread_countable(after_mark(read@, fid@, aid), feeds@[j].0),
        decreases feeds@.len() - i,
    {
        let ghost k = read_position(read@, fid@);
        proof {
            lemma_unread_after_replace(read@, fid@, read@[k].1.push(aid), feeds@[i as int].0);
        }
        if feeds[i].0.id == *fid {
            let _n: usize = feeds[i].0.entries.len();
            assert(!unread_countable(after_mark(read@, fid@, aid), feeds@[i as int].0));
            return false;
        }
        if !countable_check(read, &feeds[i].0) {
            assert(!unread_countable(after_mark(read@, fid@, aid), feeds@[i as int].0));
            return false;
        }
        i += 1;
    }
    true
}


/// Every unread article of `feed` has a title.
pub open spec fn feed_unread_titled(p: Seq<(Seq<char>, Seq<Seq<char>>)>, feed: Feed) -> bool {
    forall|a: int|
        0 <= a < feed.entries@.len() && !read_list(p, feed.id@).contains(#[trigger] feed.entries@[a].id@)
            ==> feed.entries@[a].title is Some
}

/// Whether every unread article of `feed` has a title.
fn feed_unread_titled_check(read: &Progress, feed: &Feed) -> (res: bool)
    ensures
        res == feed_unread_titled(read@, *feed),
{
    proof {
        lemma_first_index_found(progress_keys(read@), feed.id@);
    }
    let pos = find_read(read, &feed.id);
    let mut a: usize = 0;
    while a < feed.entries.len()
        invariant
            a <= feed.entries@.len(),
            match pos {
                Some(i) => i == read_position(read@, feed.id@),
                None => read_position(read@, feed.id@) == -1,
            },
            -1 <= read_position(read@, feed.id@) < read@.len(),
            forall|b: int|
                0 <= b < a && !read_list(read@, feed.id@).contains(#[trigger] feed.entries@[b].id@)
                    ==> feed.entries@[b].title is Some,
        decreases feed.entries@.len() - a,
    {
        let unread = match pos {
            Some(i) => {
                assert(read.read@[i as int].1.deep_view() == read@[i as int].1);
                !contains_id(&read.read[i].1, &feed.entries[a].id)
            },
            None => true,
        };
        assert(unread == !read_list(read@, feed.id@).contains(feed.entries@[a as int].id@));
        if unread && feed.entries[a].title.is_none() {
            return false;
        }
        a += 1;
    }
    true
}

/// Whether every unread article of every feed has a title.
pub fn unread_titled_check(read: &Progress, ch: &Vec<(Feed, Imag)>) -> (res: bool)
    ensures
        res == unread_titled(read@, ch@),
{
    let mut f: usize = 0;
    while f < ch.len()
        invariant
            f <= ch@.len(),
            forall|g: int, a: int| 0 <= g < f && #[trigger] is_unread_entry(read@, ch@, g, a) ==> ch@[g].0.entries@[a].title is Some,
        decreases ch@.len() - f,
    {
        let ok = feed_unread_titled_check(read, &ch[f].0);
        if !ok {
            let ghost a = choose|a: int|
                !(0 <= a < ch@[f as int].0.entries@.len() && !read_list(read@, ch@[f as int].0.id@).contains(
                    #[trigger] ch@[f as int].0.entries@[a].id@,
                ) ==> ch@[f as int].0.entries@[a].title is Some);
            assert(is_unread_entry(read@, ch@, f as int, a));
            return false;
        }
        assert forall|g: int, a: int| 0 <= g < f + 1 && #[trigger] is_unread_entry(read@, ch@, g, a) implies ch@[g].0.entries@[a].title is Some by {
            if g == f {
                assert(!read_list(read@, ch@[g].0.id@).contains(ch@[g].0.entries@[a].id@));
            }
        }
        f += 1;
    }
    true
}

/// Whether every article of `feed` has a title.
pub fn entries_titled_check(feed: &Feed) -> (res: bool)
    ensures
        res == entries_titled(*feed),
{
    let mut a: usize = 0;
    while a < feed.entries.len()
        invariant
            a <= feed.entries@.len(),
            forall|b: int| 0 <= b < a ==> (#[trigger] feed.entries@[b]).title is Some,
        decreases feed.entries@.len() - a,
    {
        if feed.entries[a].title.is_none() {
            return false;
        }
        a += 1;
    }
    true
}

/// Whether every feed has a title.
pub fn feeds_titled_check(ch: &Vec<(Feed, Imag)>) -> (res: bool)
    ensures
        res == feeds_titled(ch@),
{
    let mut i: usize = 0;
    while i < ch.len()
        invariant
            i <= ch@.len(),
            forall|j: int| 0 <= j < i ==> (#[trigger] ch@[j].0).title is Some,
        decreases ch@.len() - i,
    {
        if ch[i].0.title.is_none() {
            return false;
        }
        i += 1;
    }
    true
}

/// Whether `feed` has a number of unread articles other than zero.
fn unread_nonzero(read: &Progress, feed: &Feed) -> (res: bool)
    ensures
        res == (unread_of(read@, *feed) != 0),
{
    proof {
        lemma_first_index_found(progress_keys(read@), feed.id@);
    }
    match find_read(read, &feed.id) {
        Some(i) => {
            assert(read@[i as int].1.len() == read.read@[i as int].1@.len());
            read.read[i].1.len() != feed.entries.len()
        },
        None => feed.entries.len() != 0,
    }
}

/// Whether every feed with unread articles has a title.
pub fn unread_feeds_titled_check(read: &Progress, ch: &Vec<(Feed, Imag)>) -> (res: bool)
    ensures
        res == unread_feeds_titled(read@, ch@),
{
    let mut i: usize = 0;
    while i < ch.len()
        invariant
            i <= ch@.len(),
            forall|j: int| 0 <= j < i && unread_of(read@, #[trigger] ch@[j].0) != 0 ==> ch@[j].0.title is Some,
        decreases ch@.len() - i,
    {
        if unread_nonzero(read, &ch[i].0) && ch[i].0.title.is_none() {
            return false;
        }
        i += 1;
    }
    true
}

/// Whether the total of unread articles stays within `usize` as it is summed
/// up feed by feed.
pub fn unread_total_fits_check(read: &Progress, ch: &Vec<(Feed, Imag)>) -> (res: bool)
    requires
        all_countable(read@, ch@),
    ensures
        res == unread_total_fits(read@, ch@),
{
    let mut total: usize = 0;
    let mut i: usize = 0;
    while i < ch.len()
        invariant
            i <= ch@.len(),
            all_countable(read@, ch@),
            total == unread_total_spec(read@, ch@, i as int),
            forall|k: int| 0 <= k <= i ==> #[trigger] unread_total_spec(read@, ch@, k) <= usize::MAX,
        decreases ch@.len() - i,
    {
        assert(unread_countable(read@, ch@[i as int].0));
        let n = artikles_unread(read, &ch[i].0);
        assert(unread_total_spec(read@, ch@, i + 1) == total + n);
        match total.checked_add(n) {
            Some(t) => total = t,
            None => {
                return false;
            },
        }
        i += 1;
    }
    true
}


impl Uniquiz {
    /// Whether the sidebar can be shown (see `Uniquiz::sidebar_view`).
    pub fn can_show_sidebar(&self) -> (res: bool)
        ensures
            res == sidebar_ok(self@),
    {
        match &self.channels {
            None => true,
            Some(ch) => {
                if !all_countable_check(&self.read, ch) {
                    return false;
                }
                unread_total_fits_check(&self.read, ch) && (!self.unread_expanded || unread_feeds_titled_check(
                    &self.read,
                    ch,
                )) && (!self.all_expanded || feeds_titled_check(ch))
            },
        }
    }

    /// Whether the article area can be shown (see `Uniquiz::artikle_list_page`).
    pub fn can_show_artikle_list(&self) -> (res: bool)
        ensures
            res == artikle_list_ok(self@),
    {
        match &self.channels {
            None => true,
            Some(ch) => {
                if self.artikle.is_none() && self.window.tab.1 == Nav::Mixed {
                    unread_titled_check(&self.read, ch)
                } else if self.artikle.is_none() {
                    match self.feed {
                        Some(f) => f < ch.len() && entries_titled_check(&ch[f].0),
                        None => true,
                    }
                } else {
                    true
                }
            },
        }
    }

    /// Whether the feed area can be shown (see `Uniquiz::feed_list_page`).
    pub fn can_show_feed_list(&self) -> (res: bool)
        ensures
            res == feed_list_page_ok(self@),
    {
        if self.feed.is_some() || (self.window.tab.0 == 0 && self.window.tab.1 == Nav::Mixed) {
            return self.can_show_artikle_list();
        }
        match &self.channels {
            None => true,
            Some(ch) => {
                if self.window.tab.0 == 0 && self.window.tab.1 == Nav::All {
                    all_countable_check(&self.read, ch) && unread_feeds_titled_check(&self.read, ch)
                } else if self.window.tab.0 == 1 {
                    feeds_titled_check(ch)
                } else {
                    true
                }
            },
        }
    }
}

impl Controls {
    /// Whether the article view can be shown (see `Controls::feed_view_page`).
    pub fn can_show_feed_view(&self) -> (res: bool)
        ensures
            res == feed_view_page_ok(self@),
    {
        let s = &self.state;
        match (s.artikle, s.feed, &s.channels) {
            (Some(a), Some(f), Some(ch)) => {
                if f >= ch.len() || a >= ch[f].0.entries.len() {
                    return false;
                }
                let entry = &ch[f].0.entries[a];
                let has_body = match &entry.content {
                    Some(Some(_)) => true,
                    _ => false,
                };
                entry.title.is_some() && (self.markdown.is_some() || has_body)
            },
            _ => true,
        }
    }
}


impl Controls {
    /// Whether an article selection can be taken in (see `artikle_ok`).
    fn artikle_check(&self, am: &ArtikleListM) -> (res: bool)
        ensures
            res == artikle_ok(self@, *am),
    {
        let s = &self.state;
        let ArtikleListM::Select(given, art, unread) = am;
        let ch = match &s.channels {
            None => {
                return true;
            },
            Some(ch) => ch,
        };
        let sel = match given {
            Some(n) => *n,
            None => match s.feed {
                Some(f) => f,
                None => {
                    return false;
                },
            },
        };
        if sel >= ch.len() || *art >= ch[sel].0.entries.len() || s.settings.git.is_none() {
            return false;
        }
        let feed = &ch[sel].0;
        let entry = &feed.entries[*art];
        let linked = entry.links.len() > 0;
        let shown_ok = match &entry.content {
            None => linked,
            Some(body) => if s.settings.browser {
                linked
            } else {
                body.is_some()
            },
        };
        if !shown_ok {
            return false;
        }
        if !*unread {
            return true;
        }
        proof {
            lemma_first_index_found(progress_keys(s.read@), feed.id@);
        }
        let old_len = match find_read(&s.read, &feed.id) {
            Some(i) => {
                assert(s.read@[i as int].1.len() == s.read.read@[i as int].1@.len());
                s.read.read[i].1.len()
            },
            None => 0,
        };
        let ghost p = s.read@;
        let ghost k = read_position(p, feed.id@);
        let ghost list = if k >= 0 {
            p[k].1.push(entry.id@)
        } else {
            seq![entry.id@]
        };
        proof {
            lemma_unread_after_replace(p, feed.id@, list, *feed);
            assert(unread_of(after_mark(p, feed.id@, entry.id@), *feed) == feed.entries@.len() - (old_len + 1));
        }
        if old_len >= feed.entries.len() {
            return false;
        }
        if old_len + 1 < feed.entries.len() || s.window.tab.0 != 0 {
            return true;
        }
        countable_after_mark_check(&s.read, ch, &feed.id, Ghost(entry.id@))
    }

    /// Whether a message can be taken in (see `Controls::update`).
    pub fn can_take(&self, m: &Message) -> (res: bool)
        ensures
            res == step_ok(self@, *m),
    {
        let s = &self.state;
        match m {
            Message::FeedView(FeedViewM::Open) => match (s.artikle, s.feed, &s.channels) {
                (Some(a), Some(f), Some(ch)) => f < ch.len() && a < ch[f].0.entries.len()
                    && ch[f].0.entries[a].links.len() > 0,
                _ => true,
            },
            Message::ArtikleList(am) => self.artikle_check(am),
            Message::Loaded((l, _)) => match &(l.0).0 {
                None => true,
                Some(ch) => match &l.1 {
                    Some(p) => all_countable_check(p, ch),
                    None => all_countable_check(&s.read, ch),
                },
            },
            Message::FeedList(FeedListM::ReadAll(num)) => match &s.channels {
                Some(ch) => *num < ch.len() && countable_after_read_all_check(&s.read, ch, &ch[*num].0),
                None => true,
            },
            Message::Add(AddM::Add) => s.settings.git.is_some(),
            Message::Settings(SettingsM::RemoveOnline(num)) => {
                assert(s.online_feeds@.len() == s.online_feeds.urls@.len());
                *num < s.online_feeds.urls.len() && s.settings.git.is_some()
            },
            Message::Settings(SettingsM::RemoveOffline(_)) => s.settings.git.is_some(),
            Message::Settings(SettingsM::ResetProgress) => s.settings.git.is_some(),
            Message::Settings(SettingsM::ResetFeeds) => s.settings.git.is_some(),
            _ => true,
        }
    }
}

} // verus!
