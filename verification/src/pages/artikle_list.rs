//! The list of articles, and opening an article.
use vstd::prelude::*;
use crate::model::{Feed, Progress};
use crate::pages::feed_list::{contains_id, find_read, lemma_first_index_found, progress_keys, read_position};
use crate::per::Imag;

verus! {

/// Messages of the article list: open an article of a feed (the given one, or
/// the selected one), marking it read when the flag is set.
#[derive(Clone, Debug)]
pub enum ArtikleListM {
    Select(Option<usize>, usize, bool),
}

} // verus!

verus! {

/// The markdown text that `mdka::from_html` makes of an HTML text.
pub uninterp spec fn spec_markdown_of(html: Seq<char>) -> Seq<char>;

/// Converts HTML to markdown with `mdka::from_html`; the result is named by
/// `spec_markdown_of`, a function of the HTML text alone.
#[verifier::external_body]
pub(crate) fn html_to_markdown(html: &str) -> (res: String)
    ensures
        res@ == spec_markdown_of(html@),
{
    mdka::from_html(html)
}

} // verus!

verus! {

/// Whether update time `x` is later than `y`; an article without a time is
/// older than any with one.
pub open spec fn newer(x: Option<(i64, u32)>, y: Option<(i64, u32)>) -> bool {
    match (x, y) {
        (Some(a), Some(b)) => a.0 > b.0 || (a.0 == b.0 && a.1 > b.1),
        (Some(_), None) => true,
        _ => false,
    }
}

/// Whether update time `x` is later than `y`.
pub fn is_newer(x: Option<(i64, u32)>, y: Option<(i64, u32)>) -> (res: bool)
    ensures
        res == newer(x, y),
{
    match (x, y) {
        (Some(a), Some(b)) => a.0 > b.0 || (a.0 == b.0 && a.1 > b.1),
        (Some(_), None) => true,
        _ => false,
    }
}

/// The ids of the read articles of feed `id`: its first read list, or none.
pub open spec fn read_list(p: Seq<(Seq<char>, Seq<Seq<char>>)>, id: Seq<char>) -> Seq<Seq<char>> {
    let i = read_position(p, id);
    if i >= 0 {
        p[i].1
    } else {
        seq![]
    }
}

/// Whether article `a` of feed `f` exists and is unread.
pub open spec fn is_unread_entry(p: Seq<(Seq<char>, Seq<Seq<char>>)>, ch: Seq<(Feed, Imag)>, f: int, a: int) -> bool {
    &&& 0 <= f < ch.len()
    &&& 0 <= a < ch[f].0.entries@.len()
    &&& !read_list(p, ch[f].0.id@).contains(ch[f].0.entries@[a].id@)
}

/// The update time of article `a` of feed `f`.
pub open spec fn updated_of(ch: Seq<(Feed, Imag)>, f: int, a: int) -> Option<(i64, u32)> {
    ch[f].0.entries@[a].updated
}

/// Whether article `a1` of feed `f1` comes before article `a2` of feed `f2`
/// in the list of unread articles: newest first, and in feed and article order
/// among articles of the same time.
pub open spec fn shown_before(ch: Seq<(Feed, Imag)>, f1: int, a1: int, f2: int, a2: int) -> bool {
    let t1 = updated_of(ch, f1, a1);
    let t2 = updated_of(ch, f2, a2);
    newer(t1, t2) || (t1 == t2 && (f1 < f2 || (f1 == f2 && a1 < a2)))
}

/// An article of the list of unread articles.
#[derive(Clone, Debug)]
pub struct MixedItem {
    pub title: String,
    pub feed: usize,
    pub artikle: usize,
}

impl MixedItem {
    /// The message of the row's button: open the article, of the row's feed,
    /// as an unread one.
    pub fn select_message(&self) -> (res: ArtikleListM)
        ensures
            res == ArtikleListM::Select(Some(self.feed), self.artikle, true),
    {
        ArtikleListM::Select(Some(self.feed), self.artikle, true)
    }
}

/// The list is ordered newest first (ties in feed and article order).
pub open spec fn mixed_sorted(ch: Seq<(Feed, Imag)>, s: Seq<MixedItem>) -> bool {
    forall|i: int, j: int|
        0 <= i < j < s.len() ==> #[trigger] shown_before(ch, s[i].feed as int, s[i].artikle as int, s[j].feed as int, s[j].artikle as int)
}

/// Each item is an unread article, titled with the article's title.
pub open spec fn mixed_items_valid(p: Seq<(Seq<char>, Seq<Seq<char>>)>, ch: Seq<(Feed, Imag)>, s: Seq<MixedItem>) -> bool {
    forall|i: int|
        0 <= i < s.len() ==> {
            &&& is_unread_entry(p, ch, #[trigger] s[i].feed as int, s[i].artikle as int)
            &&& ch[s[i].feed as int].0.entries@[s[i].artikle as int].title == Some(s[i].title)
        }
}

/// Whether the list holds article `a` of feed `f`.
pub open spec fn lists_entry(s: Seq<MixedItem>, f: int, a: int) -> bool {
    exists|i: int| 0 <= i < s.len() && s[i].feed == f && #[trigger] s[i].artikle == a
}

/// Every unread article has a title.
pub open spec fn unread_titled(p: Seq<(Seq<char>, Seq<Seq<char>>)>, ch: Seq<(Feed, Imag)>) -> bool {
    forall|f: int, a: int| #[trigger] is_unread_entry(p, ch, f, a) ==> ch[f].0.entries@[a].title is Some
}

/// If `x` is not later than `y`, then `y` is later than or as late as `x`.
pub proof fn lemma_newer_total(x: Option<(i64, u32)>, y: Option<(i64, u32)>)
    ensures
        !newer(x, y) ==> newer(y, x) || x == y,
        !(newer(x, y) && newer(y, x)),
{
}

/// Being later is transitive, also across equal times.
pub proof fn lemma_newer_trans(x: Option<(i64, u32)>, y: Option<(i64, u32)>, z: Option<(i64, u32)>)
    ensures
        newer(x, y) && (newer(y, z) || y == z) ==> newer(x, z),
{
}

/// The unread articles of all feeds, newest first; articles of the same time
/// keep the order of their feeds and, within a feed, their own order.
pub fn unread_mixed(read: &Progress, channels: &Vec<(Feed, Imag)>) -> (res: Vec<MixedItem>)
    requires
        unread_titled(read@, channels@),
    ensures
        mixed_sorted(channels@, res@),
        mixed_items_valid(read@, channels@, res@),
        forall|f: int, a: int| lists_entry(res@, f, a) <==> is_unread_entry(read@, channels@, f, a),
{
    let ghost ch = channels@;
    let ghost p = read@;
    let mut col: Vec<MixedItem> = Vec::new();
    let mut f: usize = 0;
    while f < channels.len()
        invariant
            ch == channels@,
            p == read@,
            f <= ch.len(),
            unread_titled(p, ch),
            mixed_sorted(ch, col@),
            mixed_items_valid(p, ch, col@),
            forall|f2: int, a2: int| lists_entry(col@, f2, a2) <==> (is_unread_entry(p, ch, f2, a2) && f2 < f),
        decreases ch.len() - f,
    {
        let feed = &channels[f].0;
        proof {
            lemma_first_index_found(progress_keys(p), feed.id@);
        }
        let pos = find_read(read, &feed.id);
        let mut a: usize = 0;
        while a < feed.entries.len()
            invariant
                ch == channels@,
                p == read@,
                f < ch.len(),
                *feed == ch[f as int].0,
                pos is Some ==> pos.unwrap() == read_position(p, feed.id@) && pos.unwrap() < p.len(),
                pos is None ==> read_position(p, feed.id@) == -1,
                a <= feed.entries@.len(),
                unread_titled(p, ch),
                mixed_sorted(ch, col@),
                mixed_items_valid(p, ch, col@),
                forall|f2: int, a2: int|
                    lists_entry(col@, f2, a2) <==> (is_unread_entry(p, ch, f2, a2) && (f2 < f || (f2 == f && a2 < a))),
            decreases feed.entries@.len() - a,
        {
            let entry = &feed.entries[a];
            let seen = match pos {
                Some(q) => contains_id(&read.read[q].1, &entry.id),
                None => false,
            };
            proof {
                if pos is Some {
                    assert(read.read@[pos.unwrap() as int].1.deep_view() == p[pos.unwrap() as int].1);
                }
                assert(seen == read_list(p, feed.id@).contains(entry.id@));
            }
            if !seen {
                assert(is_unread_entry(p, ch, f as int, a as int));
                let mut q: usize = 0;
                while q < col.len() && !is_newer(entry.updated, channels[col[q].feed].0.entries[col[q].artikle].updated)
                    invariant
                        ch == channels@,
                        q <= col@.len(),
                        mixed_items_valid(p, ch, col@),
                        f < ch.len(),
                        a < ch[f as int].0.entries@.len(),
                        *entry == ch[f as int].0.entries@[a as int],
                        forall|i: int| 0 <= i < q ==> !newer(entry.updated, #[trigger] updated_of(ch, col@[i].feed as int, col@[i].artikle as int)),
                    decreases col@.len() - q,
                {
                    q += 1;
                }
                let ghost old_col = col@;
                let title = match &entry.title {
                    Some(t) => t.clone(),
                    None => String::new(),
                };
                let item = MixedItem { title, feed: f, artikle: a };
                col.insert(q, item);
                proof {
                    assert(col@ == old_col.insert(q as int, item));
                    assert forall|i: int, j: int| 0 <= i < j < col@.len() implies #[trigger] shown_before(
                        ch,
                        col@[i].feed as int,
                        col@[i].artikle as int,
                        col@[j].feed as int,
                        col@[j].artikle as int,
                    ) by {
                        if i < q && j < q {
                            assert(col@[i] == old_col[i] && col@[j] == old_col[j]);
                        } else if i > q {
                            assert(col@[i] == old_col[i - 1] && col@[j] == old_col[j - 1]);
                            assert(shown_before(ch, old_col[i - 1].feed as int, old_col[i - 1].artikle as int, old_col[j - 1].feed as int, old_col[j - 1].artikle as int));
                        } else if i < q && j > q {
                            assert(col@[i] == old_col[i] && col@[j] == old_col[j - 1]);
                            assert(shown_before(ch, old_col[i].feed as int, old_col[i].artikle as int, old_col[j - 1].feed as int, old_col[j - 1].artikle as int));
                        } else if j == q {
                            let t = updated_of(ch, old_col[i].feed as int, old_col[i].artikle as int);
                            assert(!newer(entry.updated, t));
                            lemma_newer_total(entry.updated, t);
                            assert(lists_entry(old_col, old_col[i].feed as int, old_col[i].artikle as int));
                        } else {
                            assert(i == q);
                            let t0 = updated_of(ch, old_col[q as int].feed as int, old_col[q as int].artikle as int);
                            let tj = updated_of(ch, old_col[j - 1].feed as int, old_col[j - 1].artikle as int);
                            assert(newer(entry.updated, t0));
                            if j - 1 > q {
                                assert(shown_before(ch, old_col[q as int].feed as int, old_col[q as int].artikle as int, old_col[j - 1].feed as int, old_col[j - 1].artikle as int));
                            }
                            lemma_newer_trans(entry.updated, t0, tj);
                        }
                    }
                    assert forall|f2: int, a2: int|
                        lists_entry(col@, f2, a2) <==> (is_unread_entry(p, ch, f2, a2) && (f2 < f || (f2 == f && a2 < a + 1))) by {
                        if lists_entry(col@, f2, a2) {
                            let i = choose|i: int| 0 <= i < col@.len() && col@[i].feed == f2 && #[trigger] col@[i].artikle == a2;
                            if i < q {
                                assert(old_col[i] == col@[i]);
                                assert(lists_entry(old_col, f2, a2));
                            } else if i > q {
                                assert(old_col[i - 1] == col@[i]);
                                assert(lists_entry(old_col, f2, a2));
                            }
                        }
                        if is_unread_entry(p, ch, f2, a2) && (f2 < f || (f2 == f && a2 < a + 1)) {
                            if f2 == f && a2 == a {
                                assert(col@[q as int].feed == f2 && col@[q as int].artikle == a2);
                            } else {
                                assert(lists_entry(old_col, f2, a2));
                                let i = choose|i: int| 0 <= i < old_col.len() && old_col[i].feed == f2 && #[trigger] old_col[i].artikle == a2;
                                if i < q {
                                    assert(col@[i] == old_col[i]);
                                } else {
                                    assert(col@[i + 1] == old_col[i]);
                                }
                            }
                        }
                    }
                    assert forall|i: int| 0 <= i < col@.len() implies {
                        &&& is_unread_entry(p, ch, #[trigger] col@[i].feed as int, col@[i].artikle as int)
                        &&& ch[col@[i].feed as int].0.entries@[col@[i].artikle as int].title == Some(col@[i].title)
                    } by {
                        if i < q {
                            assert(col@[i] == old_col[i]);
                        } else if i > q {
                            assert(col@[i] == old_col[i - 1]);
                        } else {
                            assert(unread_titled(p, ch));
                            assert(is_unread_entry(p, ch, f as int, a as int));
                        }
                    }
                }
            } else {
                proof {
                    assert forall|f2: int, a2: int|
                        lists_entry(col@, f2, a2) <==> (is_unread_entry(p, ch, f2, a2) && (f2 < f || (f2 == f && a2 < a + 1))) by {
                    }
                }
            }
            a += 1;
        }
        f += 1;
    }
    col
}

} // verus!

verus! {

/// An article of one feed as its list shows it: title, position and whether
/// selecting it marks it read.
#[derive(Clone, Debug)]
pub struct FeedArtikle {
    pub title: String,
    pub artikle: usize,
    pub unread: bool,
}

impl FeedArtikle {
    /// The message of the row's button: open the article of the selected feed,
    /// saying whether it is unread.
    pub fn select_message(&self) -> (res: ArtikleListM)
        ensures
            res == ArtikleListM::Select(None, self.artikle, self.unread),
    {
        ArtikleListM::Select(None, self.artikle, self.unread)
    }
}

/// The rows of the first `k` articles of `feed`: every unread article, and
/// the read ones too when `show_read` is set; with whether it is unread.
pub open spec fn feed_rows_spec(p: Seq<(Seq<char>, Seq<Seq<char>>)>, feed: Feed, show_read: bool, k: int) -> Seq<(int, bool)>
    decreases k,
{
    if k <= 0 {
        seq![]
    } else {
        let before = feed_rows_spec(p, feed, show_read, k - 1);
        if read_list(p, feed.id@).contains(feed.entries@[k - 1].id@) {
            if show_read {
                before.push((k - 1, false))
            } else {
                before
            }
        } else {
            before.push((k - 1, true))
        }
    }
}


/// Some row of `rows` is that of article `a`.
pub open spec fn has_row(rows: Seq<(int, bool)>, a: int) -> bool {
    exists|i: int| 0 <= i < rows.len() && rows[i].0 == a
}

/// Article `a` of `feed` gets a row: it is unread, or read ones are shown.
pub open spec fn row_owed(p: Seq<(Seq<char>, Seq<Seq<char>>)>, feed: Feed, show_read: bool, a: int) -> bool {
    show_read || !read_list(p, feed.id@).contains(feed.entries@[a].id@)
}

/// The rows of a feed's articles follow the feed's order, each article at
/// most once; each row says whether its article is unread; and every unread
/// article has a row, and so has every read one where read ones are shown.
pub proof fn law_feed_rows(p: Seq<(Seq<char>, Seq<Seq<char>>)>, feed: Feed, show_read: bool, k: int)
    requires
        0 <= k <= feed.entries@.len(),
    ensures
        forall|i: int, j: int|
            0 <= i < j < feed_rows_spec(p, feed, show_read, k).len() ==> feed_rows_spec(p, feed, show_read, k)[i].0
                < feed_rows_spec(p, feed, show_read, k)[j].0,
        forall|i: int|
            0 <= i < feed_rows_spec(p, feed, show_read, k).len() ==> 0 <= #[trigger] feed_rows_spec(
                p,
                feed,
                show_read,
                k,
            )[i].0 < k,
        forall|i: int|
            0 <= i < feed_rows_spec(p, feed, show_read, k).len() ==> #[trigger] feed_rows_spec(p, feed, show_read, k)[i].1
                == !read_list(p, feed.id@).contains(feed.entries@[feed_rows_spec(p, feed, show_read, k)[i].0].id@),
        forall|a: int|
            0 <= a < k && #[trigger] row_owed(p, feed, show_read, a) ==> has_row(feed_rows_spec(p, feed, show_read, k), a),
    decreases k,
{
    if k > 0 {
        law_feed_rows(p, feed, show_read, k - 1);
        let before = feed_rows_spec(p, feed, show_read, k - 1);
        let rows = feed_rows_spec(p, feed, show_read, k);
        if read_list(p, feed.id@).contains(feed.entries@[k - 1].id@) {
            if show_read {
                assert(rows == before.push((k - 1, false)));
            } else {
                assert(rows == before);
            }
        } else {
            assert(rows == before.push((k - 1, true)));
        }
        assert(forall|i: int| 0 <= i < before.len() ==> rows[i] == before[i]);
        assert forall|a: int| 0 <= a < k && #[trigger] row_owed(p, feed, show_read, a) implies has_row(rows, a) by {
            if a < k - 1 {
                assert(has_row(before, a));
                let i = choose|i: int| 0 <= i < before.len() && before[i].0 == a;
                assert(rows[i] == before[i]);
            } else {
                assert(rows[rows.len() - 1].0 == a);
            }
        }
    }
}

/// Every article of the feed has a title.
pub open spec fn entries_titled(feed: Feed) -> bool {
    forall|i: int| 0 <= i < feed.entries@.len() ==> (#[trigger] feed.entries@[i]).title is Some
}

/// The rows match the given positions and flags and carry the titles.
pub open spec fn feed_rows_match(feed: Feed, rows: Seq<FeedArtikle>, spec_rows: Seq<(int, bool)>) -> bool {
    &&& rows.len() == spec_rows.len()
    &&& forall|i: int|
        0 <= i < rows.len() ==> {
            &&& #[trigger] rows[i].artikle == spec_rows[i].0
            &&& rows[i].unread == spec_rows[i].1
            &&& 0 <= rows[i].artikle < feed.entries@.len()
            &&& feed.entries@[rows[i].artikle as int].title == Some(rows[i].title)
        }
}

/// The articles of one feed: the unread ones, and the read ones when
/// `show_read` is set, in order.
pub fn feed_artikles(read: &Progress, feed: &Feed, show_read: bool) -> (res: Vec<FeedArtikle>)
    requires
        entries_titled(*feed),
    ensures
        feed_rows_match(*feed, res@, feed_rows_spec(read@, *feed, show_read, feed.entries@.len() as int)),
        forall|i: int, j: int| 0 <= i < j < res@.len() ==> res@[i].artikle < res@[j].artikle,
        forall|i: int|
            0 <= i < res@.len() ==> res@[i].unread == !read_list(read@, feed.id@).contains(
                feed.entries@[res@[i].artikle as int].id@,
            ),
        forall|a: int|
            0 <= a < feed.entries@.len() && #[trigger] row_owed(read@, *feed, show_read, a) ==> exists|i: int|
                0 <= i < res@.len() && res@[i].artikle == a,
{
    proof {
        lemma_first_index_found(progress_keys(read@), feed.id@);
        law_feed_rows(read@, *feed, show_read, feed.entries@.len() as int);
    }
    let pos = find_read(read, &feed.id);
    let mut rows: Vec<FeedArtikle> = Vec::new();
    let mut i: usize = 0;
    while i < feed.entries.len()
        invariant
            i <= feed.entries@.len(),
            entries_titled(*feed),
            pos is Some ==> pos.unwrap() == read_position(read@, feed.id@) && pos.unwrap() < read@.len(),
            pos is None ==> read_position(read@, feed.id@) == -1,
            feed_rows_match(*feed, rows@, feed_rows_spec(read@, *feed, show_read, i as int)),
        decreases feed.entries@.len() - i,
    {
        let entry = &feed.entries[i];
        let seen = match pos {
            Some(q) => contains_id(&read.read[q].1, &entry.id),
            None => false,
        };
        proof {
            if pos is Some {
                assert(read.read@[pos.unwrap() as int].1.deep_view() == read@[pos.unwrap() as int].1);
            }
            assert(seen == read_list(read@, feed.id@).contains(entry.id@));
            assert(feed.entries@[i as int].title is Some);
        }
        let title = match &entry.title {
            Some(t) => t.clone(),
            None => String::new(),
        };
        if seen {
            if show_read {
                rows.push(FeedArtikle { title, artikle: i, unread: false });
            }
        } else {
            rows.push(FeedArtikle { title, artikle: i, unread: true });
        }
        i += 1;
    }
    proof {
        let sp = feed_rows_spec(read@, *feed, show_read, feed.entries@.len() as int);
        assert forall|a: int|
            0 <= a < feed.entries@.len() && #[trigger] row_owed(read@, *feed, show_read, a) implies exists|j: int|
                0 <= j < rows@.len() && rows@[j].artikle == a by {
            assert(has_row(sp, a));
            let j = choose|j: int| 0 <= j < sp.len() && sp[j].0 == a;
            assert(rows@[j].artikle == sp[j].0);
        }
    }
    rows
}

} // verus!
