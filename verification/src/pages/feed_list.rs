//! Counting unread articles and marking whole feeds as read.
use vstd::prelude::*;
use crate::comps::sidebar::SidebarM;
use crate::model::{Entry, Feed, Nav, Progress};
use crate::per::Imag;
use crate::pages::artikle_list::read_list;

verus! {

/// Messages of the feed list.
#[derive(Clone, Debug)]
pub enum FeedListM {
    Select(usize),
    ReadAll(usize),
    Remove(usize),
}

/// The position of the first `key` in `keys`, or -1 when it does not occur.
pub open spec fn first_index(keys: Seq<Seq<char>>, key: Seq<char>) -> int
    decreases keys.len(),
{
    if keys.len() == 0 {
        -1
    } else if keys[0] == key {
        0
    } else {
        let rest = first_index(keys.drop_first(), key);
        if rest < 0 {
            -1
        } else {
            rest + 1
        }
    }
}

/// The feed ids of a progress record, in order.
pub open spec fn progress_keys(p: Seq<(Seq<char>, Seq<Seq<char>>)>) -> Seq<Seq<char>> {
    Seq::new(p.len(), |i: int| p[i].0)
}

/// Where the read list of feed `id` stands in the progress record (the first
/// one with that id), or -1 when there is none.
pub open spec fn read_position(p: Seq<(Seq<char>, Seq<Seq<char>>)>, id: Seq<char>) -> int {
    first_index(progress_keys(p), id)
}

/// The ids of the entries of a feed.
pub open spec fn entry_ids(feed: Feed) -> Seq<Seq<char>> {
    Seq::new(feed.entries@.len(), |i: int| feed.entries@[i].id@)
}

/// The number of unread articles of `feed`: its number of entries less the
/// length of its read list.
pub open spec fn unread_of(p: Seq<(Seq<char>, Seq<Seq<char>>)>, feed: Feed) -> int {
    let i = read_position(p, feed.id@);
    if i >= 0 {
        feed.entries@.len() - p[i].1.len()
    } else {
        feed.entries@.len() as int
    }
}

/// The read list of `feed` is no longer than its list of entries, so that the
/// count of unread articles is not negative.
pub open spec fn unread_countable(p: Seq<(Seq<char>, Seq<Seq<char>>)>, feed: Feed) -> bool {
    unread_of(p, feed) >= 0
}

/// Every feed of `feeds` can have its unread articles counted.
pub open spec fn all_countable(p: Seq<(Seq<char>, Seq<Seq<char>>)>, feeds: Seq<(Feed, Imag)>) -> bool {
    forall|i: int| 0 <= i < feeds.len() ==> #[trigger] unread_countable(p, feeds[i].0)
}

/// The number of feeds in `feeds` that have an unread article.
pub open spec fn feeds_with_unread(p: Seq<(Seq<char>, Seq<Seq<char>>)>, feeds: Seq<(Feed, Imag)>) -> nat
    decreases feeds.len(),
{
    if feeds.len() == 0 {
        0
    } else {
        feeds_with_unread(p, feeds.drop_last()) + if unread_of(p, feeds.last().0) > 0 {
            1nat
        } else {
            0nat
        }
    }
}

/// `first_index` finds the first occurrence: if none of the first `i` keys is
/// `key`, then the first index is `i` when `keys[i]` is `key`, and -1 when
/// `i` is past the end.
pub proof fn lemma_first_index(keys: Seq<Seq<char>>, key: Seq<char>, i: int)
    requires
        0 <= i <= keys.len(),
        forall|j: int| 0 <= j < i ==> keys[j] != key,
    ensures
        i < keys.len() && keys[i] == key ==> first_index(keys, key) == i,
        i == keys.len() ==> first_index(keys, key) == -1,
    decreases i,
{
    if i > 0 {
        let rest = keys.drop_first();
        assert forall|j: int| 0 <= j < i - 1 implies rest[j] != key by {
            assert(rest[j] == keys[j + 1]);
        }
        lemma_first_index(rest, key, i - 1);
    } else if keys.len() > 0 {
    }
}

/// The result of `first_index` is -1 or a position that holds `key`, with no
/// `key` before it.
pub proof fn lemma_first_index_found(keys: Seq<Seq<char>>, key: Seq<char>)
    ensures
        -1 <= first_index(keys, key) < keys.len(),
        first_index(keys, key) >= 0 ==> keys[first_index(keys, key)] == key,
        forall|j: int| 0 <= j < first_index(keys, key) ==> keys[j] != key,
        first_index(keys, key) == -1 ==> forall|j: int| 0 <= j < keys.len() ==> keys[j] != key,
    decreases keys.len(),
{
    if keys.len() > 0 {
        let rest = keys.drop_first();
        lemma_first_index_found(rest, key);
        if keys[0] != key {
            assert forall|j: int| 0 <= j < keys.len() && first_index(rest, key) == -1 implies keys[j] != key by {
                if j > 0 {
                    assert(keys[j] == rest[j - 1]);
                }
            }
            assert forall|j: int| 0 <= j < first_index(keys, key) implies keys[j] != key by {
                if j > 0 {
                    assert(keys[j] == rest[j - 1]);
                }
            }
        }
    }
}

/// Finds the read list of the feed with id `id`.
pub fn find_read(read: &Progress, id: &String) -> (res: Option<usize>)
    ensures
        match res {
            Some(i) => i == read_position(read@, id@),
            None => read_position(read@, id@) == -1,
        },
{
    let ghost keys = progress_keys(read@);
    let mut i: usize = 0;
    while i < read.read.len()
        invariant
            i <= read.read@.len(),
            keys == progress_keys(read@),
            forall|j: int| 0 <= j < i ==> keys[j] != id@,
        decreases read.read@.len() - i,
    {
        if read.read[i].0 == *id {
            proof {
                lemma_first_index(keys, id@, i as int);
            }
            return Some(i);
        }
        i += 1;
    }
    proof {
        lemma_first_index(keys, id@, i as int);
    }
    None
}

/// The number of unread articles of `feed`: its number of entries less the
/// length of the first read list kept for it.
pub fn artikles_unread(read: &Progress, feed: &Feed) -> (res: usize)
    requires
        unread_countable(read@, *feed),
    ensures
        res == unread_of(read@, *feed),
{
    proof {
        lemma_first_index_found(progress_keys(read@), feed.id@);
    }
    match find_read(read, &feed.id) {
        Some(i) => {
            assert(read@[i as int].1.len() == read.read@[i as int].1@.len());
            feed.entries.len() - read.read[i].1.len()
        },
        None => feed.entries.len(),
    }
}

/// The number of feeds that have an unread article.
pub fn feeds_unread(read: &Progress, feeds: &[(Feed, Imag)]) -> (res: usize)
    requires
        all_countable(read@, feeds@),
    ensures
        res == feeds_with_unread(read@, feeds@),
{
    let mut count: usize = 0;
    let mut i: usize = 0;
    while i < feeds.len()
        invariant
            i <= feeds@.len(),
            all_countable(read@, feeds@),
            count == feeds_with_unread(read@, feeds@.take(i as int)),
            count <= i,
        decreases feeds@.len() - i,
    {
        assert(feeds@.take(i + 1).drop_last() == feeds@.take(i as int));
        assert(unread_countable(read@, feeds@[i as int].0));
        if artikles_unread(read, &feeds[i].0) > 0 {
            count += 1;
        }
        i += 1;
    }
    assert(feeds@.take(i as int) == feeds@);
    count
}

} // verus!

verus! {

/// Whether `p` records article `aid` of feed `fid` as read (in the first read
/// list of that feed).
pub open spec fn is_read(p: Seq<(Seq<char>, Seq<Seq<char>>)>, fid: Seq<char>, aid: Seq<char>) -> bool {
    let i = read_position(p, fid);
    i >= 0 && p[i].1.contains(aid)
}

/// The progress record after article `aid` of feed `fid` was marked read: the
/// id is appended to the feed's first read list, or a new list holding only it
/// is appended when the feed has none.
pub open spec fn after_mark(p: Seq<(Seq<char>, Seq<Seq<char>>)>, fid: Seq<char>, aid: Seq<char>) -> Seq<(Seq<char>, Seq<Seq<char>>)> {
    let i = read_position(p, fid);
    if i >= 0 {
        p.update(i, (p[i].0, p[i].1.push(aid)))
    } else {
        p.push((fid, seq![aid]))
    }
}

/// `list` with each of `ids` appended in order, unless it is already there.
pub open spec fn add_missing(list: Seq<Seq<char>>, ids: Seq<Seq<char>>) -> Seq<Seq<char>>
    decreases ids.len(),
{
    if ids.len() == 0 {
        list
    } else {
        let last = ids.last();
        let before = add_missing(list, ids.drop_last());
        if before.contains(last) {
            before
        } else {
            before.push(last)
        }
    }
}

/// The progress record after every article of `feed` was marked read.
pub open spec fn after_read_all(p: Seq<(Seq<char>, Seq<Seq<char>>)>, feed: Feed) -> Seq<(Seq<char>, Seq<Seq<char>>)> {
    let i = read_position(p, feed.id@);
    if i >= 0 {
        p.update(i, (p[i].0, add_missing(p[i].1, entry_ids(feed))))
    } else {
        p.push((feed.id@, entry_ids(feed)))
    }
}

/// Whether `id` is in `list`.
pub fn contains_id(list: &Vec<String>, id: &String) -> (res: bool)
    ensures
        res == list.deep_view().contains(id@),
{
    let mut i: usize = 0;
    while i < list.len()
        invariant
            i <= list@.len(),
            forall|j: int| 0 <= j < i ==> list.deep_view()[j] != id@,
        decreases list@.len() - i,
    {
        if list[i] == *id {
            assert(list.deep_view()[i as int] == id@);
            return true;
        }
        i += 1;
    }
    false
}

/// Marks article `aid` of feed `fid` as read.
pub fn mark_read(read: &mut Progress, fid: &String, aid: String)
    ensures
        final(read)@ == after_mark(old(read)@, fid@, aid@),
{
    proof {
        lemma_first_index_found(progress_keys(read@), fid@);
    }
    let ghost before = read@;
    match find_read(read, fid) {
        Some(i) => {
            read.read[i].1.push(aid);
            assert(read@ =~= after_mark(before, fid@, aid@)) by {
                assert forall|j: int| 0 <= j < read@.len() implies read@[j] == after_mark(before, fid@, aid@)[j] by {
                    if j == i {
                        assert(read.read@[j].1.deep_view() =~= before[j].1.push(aid@));
                    }
                }
            }
        },
        None => {
            let mut list: Vec<String> = Vec::new();
            list.push(aid);
            read.read.push((fid.clone(), list));
            assert(read@ =~= after_mark(before, fid@, aid@)) by {
                assert(read.read@.last().1.deep_view() =~= seq![aid@]);
            }
        },
    }
}

} // verus!

verus! {

/// The ids of all entries of `feed`, in order.
pub fn collect_entry_ids(feed: &Feed) -> (res: Vec<String>)
    ensures
        res.deep_view() == entry_ids(*feed),
{
    let mut ids: Vec<String> = Vec::new();
    let mut k: usize = 0;
    while k < feed.entries.len()
        invariant
            k <= feed.entries@.len(),
            ids.deep_view() =~= entry_ids(*feed).take(k as int),
            ids@.len() == k,
        decreases feed.entries@.len() - k,
    {
        ids.push(feed.entries[k].id.clone());
        k += 1;
        assert forall|j: int| 0 <= j < k implies ids.deep_view()[j] == entry_ids(*feed).take(k as int)[j] by {
            assert(ids.deep_view()[j] == ids@[j]@);
        }
        assert(ids.deep_view() =~= entry_ids(*feed).take(k as int));
    }
    assert(entry_ids(*feed).take(k as int) =~= entry_ids(*feed));
    ids
}

/// Marks every article of `feed` as read: the ids that its first read list
/// lacks are appended to it, or a new list of all its ids is appended.
pub fn read_all(read: &mut Progress, feed: &Feed)
    ensures
        final(read)@ == after_read_all(old(read)@, *feed),
{
    proof {
        lemma_first_index_found(progress_keys(read@), feed.id@);
    }
    let ghost before = read@;
    match find_read(read, &feed.id) {
        Some(i) => {
            let mut k: usize = 0;
            while k < feed.entries.len()
                invariant
                    k <= feed.entries@.len(),
                    0 <= i < before.len(),
                    read.read@.len() == before.len(),
                    read@ == before.update(
                        i as int,
                        (before[i as int].0, add_missing(before[i as int].1, entry_ids(*feed).take(k as int))),
                    ),
                decreases feed.entries@.len() - k,
            {
                let ghost cur = read@;
                let ghost cur_vec = read.read@;
                assert(entry_ids(*feed).take(k + 1).drop_last() =~= entry_ids(*feed).take(k as int));
                assert(entry_ids(*feed).take(k + 1).last() == feed.entries@[k as int].id@);
                let present = contains_id(&read.read[i].1, &feed.entries[k].id);
                let ghost target = before.update(
                    i as int,
                    (before[i as int].0, add_missing(before[i as int].1, entry_ids(*feed).take(k + 1))),
                );
                assert(cur[i as int].1 == read.read@[i as int].1.deep_view());
                assert(add_missing(before[i as int].1, entry_ids(*feed).take(k + 1)) == if cur[i as int].1.contains(
                    feed.entries@[k as int].id@,
                ) {
                    cur[i as int].1
                } else {
                    cur[i as int].1.push(feed.entries@[k as int].id@)
                });
                if !present {
                    read.read[i].1.push(feed.entries[k].id.clone());
                    assert(read.read@[i as int].1.deep_view() =~= cur[i as int].1.push(feed.entries@[k as int].id@));
                    assert(read@ =~= target) by {
                        assert forall|j: int| 0 <= j < read@.len() implies read@[j] == target[j] by {
                            if j != i {
                                assert(read.read@[j] == cur_vec[j]);
                                assert(read@[j] == cur_vec[j].deep_view());
                                assert(cur[j] == cur_vec[j].deep_view());
                                assert(cur[j] == target[j]);
                            } else {
                                assert(read.read@[j].0 == cur_vec[j].0);
                                assert(cur[j].0 == before[j].0);
                                assert(read@[j].0 == before[j].0);
                                assert(read@[j].1 == target[j].1);
                            }
                        }
                    }
                } else {
                    assert(read@ =~= before.update(
                        i as int,
                        (before[i as int].0, add_missing(before[i as int].1, entry_ids(*feed).take(k + 1))),
                    ));
                }
                k += 1;
            }
            assert(entry_ids(*feed).take(k as int) =~= entry_ids(*feed));
        },
        None => {
            let ids = collect_entry_ids(feed);
            read.read.push((feed.id.clone(), ids));
            assert(read@ =~= after_read_all(before, *feed));
        },
    }
}

} // verus!

verus! {

/// Appending a key keeps every key's first position, and gives the appended
/// key the last position when it did not occur before.
pub proof fn lemma_first_index_push(keys: Seq<Seq<char>>, k: Seq<char>, key: Seq<char>)
    ensures
        first_index(keys, key) >= 0 ==> first_index(keys.push(k), key) == first_index(keys, key),
        first_index(keys, key) < 0 && k == key ==> first_index(keys.push(k), key) == keys.len(),
        first_index(keys, key) < 0 && k != key ==> first_index(keys.push(k), key) == -1,
{
    lemma_first_index_found(keys, key);
    let pushed = keys.push(k);
    let f = first_index(keys, key);
    if f >= 0 {
        assert forall|j: int| 0 <= j < f implies pushed[j] != key by {
            assert(pushed[j] == keys[j]);
        }
        lemma_first_index(pushed, key, f);
    } else {
        assert forall|j: int| 0 <= j < keys.len() implies pushed[j] != key by {
            assert(pushed[j] == keys[j]);
        }
        lemma_first_index(pushed, key, keys.len() as int);
        if k != key {
            assert forall|j: int| 0 <= j < pushed.len() implies pushed[j] != key by {
                if j < keys.len() {
                    assert(pushed[j] == keys[j]);
                }
            }
            lemma_first_index(pushed, key, pushed.len() as int);
        }
    }
}

/// Replacing the read list at a position keeps every feed's position.
pub proof fn lemma_positions_kept(
    p: Seq<(Seq<char>, Seq<Seq<char>>)>,
    i: int,
    list: Seq<Seq<char>>,
    id: Seq<char>,
)
    requires
        0 <= i < p.len(),
    ensures
        read_position(p.update(i, (p[i].0, list)), id) == read_position(p, id),
{
    assert(progress_keys(p.update(i, (p[i].0, list))) =~= progress_keys(p));
}

/// Appending a read list for a new feed keeps every feed's position and gives
/// the new feed the last one.
pub proof fn lemma_positions_push(
    p: Seq<(Seq<char>, Seq<Seq<char>>)>,
    entry: (Seq<char>, Seq<Seq<char>>),
    id: Seq<char>,
)
    ensures
        read_position(p, id) >= 0 ==> read_position(p.push(entry), id) == read_position(p, id),
        read_position(p, id) < 0 && entry.0 == id ==> read_position(p.push(entry), id) == p.len(),
        read_position(p, id) < 0 && entry.0 != id ==> read_position(p.push(entry), id) == -1,
{
    assert(progress_keys(p.push(entry)) =~= progress_keys(p).push(entry.0));
    lemma_first_index_push(progress_keys(p), entry.0, id);
}

/// Marking an article read records it as read, and forgets nothing that was
/// read before.
pub proof fn lemma_mark_read(
    p: Seq<(Seq<char>, Seq<Seq<char>>)>,
    fid: Seq<char>,
    aid: Seq<char>,
    other_fid: Seq<char>,
    other_aid: Seq<char>,
)
    ensures
        is_read(after_mark(p, fid, aid), fid, aid),
        is_read(p, other_fid, other_aid) ==> is_read(after_mark(p, fid, aid), other_fid, other_aid),
{
    lemma_first_index_found(progress_keys(p), fid);
    lemma_first_index_found(progress_keys(p), other_fid);
    let i = read_position(p, fid);
    let q = after_mark(p, fid, aid);
    if i >= 0 {
        lemma_positions_kept(p, i, p[i].1.push(aid), fid);
        lemma_positions_kept(p, i, p[i].1.push(aid), other_fid);
        assert(q[i].1[p[i].1.len() as int] == aid);
        if is_read(p, other_fid, other_aid) {
            let j = read_position(p, other_fid);
            let k = choose|k: int| 0 <= k < p[j].1.len() && p[j].1[k] == other_aid;
            assert(q[j].1[k] == other_aid);
        }
    } else {
        lemma_positions_push(p, (fid, seq![aid]), fid);
        lemma_positions_push(p, (fid, seq![aid]), other_fid);
        assert(q[p.len() as int].1[0] == aid);
        if is_read(p, other_fid, other_aid) {
            let j = read_position(p, other_fid);
            let k = choose|k: int| 0 <= k < p[j].1.len() && p[j].1[k] == other_aid;
            assert(q[j].1[k] == other_aid);
        }
    }
}

/// Everything that `list` holds, `add_missing(list, ids)` holds, and so does
/// each of `ids`.
pub proof fn lemma_add_missing(list: Seq<Seq<char>>, ids: Seq<Seq<char>>)
    ensures
        forall|x: Seq<char>| list.contains(x) ==> #[trigger] add_missing(list, ids).contains(x),
        forall|x: Seq<char>| ids.contains(x) ==> #[trigger] add_missing(list, ids).contains(x),
    decreases ids.len(),
{
    if ids.len() > 0 {
        let rest = ids.drop_last();
        lemma_add_missing(list, rest);
        let before = add_missing(list, rest);
        let last = ids.last();
        assert forall|x: Seq<char>| before.contains(x) implies #[trigger] add_missing(list, ids).contains(x) by {
            if !before.contains(last) {
                let k = choose|k: int| 0 <= k < before.len() && before[k] == x;
                assert(before.push(last)[k] == x);
            }
        }
        assert forall|x: Seq<char>| ids.contains(x) implies #[trigger] add_missing(list, ids).contains(x) by {
            let k = choose|k: int| 0 <= k < ids.len() && ids[k] == x;
            if k < ids.len() - 1 {
                assert(rest[k] == x);
                assert(before.contains(x));
            } else if !before.contains(last) {
                assert(before.push(last)[before.len() as int] == x);
            }
        }
    }
}

/// Reading a whole feed records each of its articles as read, and forgets
/// nothing that was read before.
pub proof fn lemma_read_all(
    p: Seq<(Seq<char>, Seq<Seq<char>>)>,
    feed: Feed,
    other_fid: Seq<char>,
    other_aid: Seq<char>,
)
    ensures
        forall|k: int| 0 <= k < feed.entries@.len() ==> is_read(after_read_all(p, feed), feed.id@, #[trigger] feed.entries@[k].id@),
        is_read(p, other_fid, other_aid) ==> is_read(after_read_all(p, feed), other_fid, other_aid),
{
    lemma_first_index_found(progress_keys(p), feed.id@);
    lemma_first_index_found(progress_keys(p), other_fid);
    let i = read_position(p, feed.id@);
    let q = after_read_all(p, feed);
    let ids = entry_ids(feed);
    if i >= 0 {
        lemma_add_missing(p[i].1, ids);
        lemma_positions_kept(p, i, add_missing(p[i].1, ids), feed.id@);
        lemma_positions_kept(p, i, add_missing(p[i].1, ids), other_fid);
        assert forall|k: int| 0 <= k < feed.entries@.len() implies is_read(q, feed.id@, #[trigger] feed.entries@[k].id@) by {
            assert(ids[k] == feed.entries@[k].id@);
            assert(ids.contains(feed.entries@[k].id@));
        }
        if is_read(p, other_fid, other_aid) {
            let j = read_position(p, other_fid);
            if j != i {
                assert(q[j] == p[j]);
            }
        }
    } else {
        lemma_positions_push(p, (feed.id@, ids), feed.id@);
        lemma_positions_push(p, (feed.id@, ids), other_fid);
        assert forall|k: int| 0 <= k < feed.entries@.len() implies is_read(q, feed.id@, #[trigger] feed.entries@[k].id@) by {
            assert(q[p.len() as int].1[k] == feed.entries@[k].id@);
        }
        if is_read(p, other_fid, other_aid) {
            let j = read_position(p, other_fid);
            assert(q[j] == p[j]);
        }
    }
}

/// After the read list at the position of feed `fid` is replaced by `list`
/// (or, when there is none, `list` is appended for it), a feed's unread count
/// is its number of entries less the length of `list` when its id is `fid`,
/// and stays as it was otherwise.
pub proof fn lemma_unread_after_replace(
    p: Seq<(Seq<char>, Seq<Seq<char>>)>,
    fid: Seq<char>,
    list: Seq<Seq<char>>,
    g: Feed,
)
    ensures
        ({
            let i = read_position(p, fid);
            let q = if i >= 0 {
                p.update(i, (p[i].0, list))
            } else {
                p.push((fid, list))
            };
            unread_of(q, g) == if g.id@ == fid {
                g.entries@.len() - list.len()
            } else {
                unread_of(p, g)
            }
        }),
{
    lemma_first_index_found(progress_keys(p), fid);
    lemma_first_index_found(progress_keys(p), g.id@);
    let i = read_position(p, fid);
    if i >= 0 {
        assert(progress_keys(p)[i] == p[i].0);
        lemma_positions_kept(p, i, list, g.id@);
        let j = read_position(p, g.id@);
        if j >= 0 && j != i {
            assert(progress_keys(p)[j] == p[j].0);
        }
    } else {
        lemma_positions_push(p, (fid, list), g.id@);
        let j = read_position(p, g.id@);
        if j >= 0 {
            assert(p.push((fid, list))[j] == p[j]);
        }
    }
}


/// The ids that `add_missing` gives back are those of `list` and `ids`, and
/// none twice where `list` holds none twice.
pub proof fn lemma_add_missing_exact(list: Seq<Seq<char>>, ids: Seq<Seq<char>>)
    ensures
        forall|x: Seq<char>| #[trigger] add_missing(list, ids).contains(x) ==> list.contains(x) || ids.contains(x),
        list.no_duplicates() ==> add_missing(list, ids).no_duplicates(),
    decreases ids.len(),
{
    if ids.len() > 0 {
        let rest = ids.drop_last();
        let last = ids.last();
        lemma_add_missing_exact(list, rest);
        let before = add_missing(list, rest);
        assert forall|x: Seq<char>| #[trigger] add_missing(list, ids).contains(x) implies list.contains(x) || ids.contains(x) by {
            let r = add_missing(list, ids);
            let k = choose|k: int| 0 <= k < r.len() && r[k] == x;
            if k < before.len() {
                assert(before[k] == x);
                assert(before.contains(x));
                if rest.contains(x) {
                    let j = choose|j: int| 0 <= j < rest.len() && rest[j] == x;
                    assert(ids[j] == x);
                }
            } else {
                assert(ids[ids.len() - 1] == x);
            }
        }
    }
}

/// Marking article `aid` of feed `fid` read lowers the count of unread
/// articles of that feed by one, and leaves the count of a feed with another
/// id as it was.
pub proof fn law_mark_read_counts(p: Seq<(Seq<char>, Seq<Seq<char>>)>, fid: Seq<char>, aid: Seq<char>, g: Feed)
    ensures
        unread_of(after_mark(p, fid, aid), g) == if g.id@ == fid {
            unread_of(p, g) - 1
        } else {
            unread_of(p, g)
        },
{
    let i = read_position(p, fid);
    let list = if i >= 0 {
        p[i].1.push(aid)
    } else {
        seq![aid]
    };
    lemma_unread_after_replace(p, fid, list, g);
}

/// Reading all articles of a feed leaves none of them unread, where its
/// articles have distinct ids and its read list holds only ids of its
/// articles, none twice; the counts of feeds with another id stay as they were.
pub proof fn law_read_all_leaves_none_unread(p: Seq<(Seq<char>, Seq<Seq<char>>)>, feed: Feed, g: Feed)
    requires
        entry_ids(feed).no_duplicates(),
        read_list(p, feed.id@).no_duplicates(),
        forall|x: Seq<char>| #[trigger] read_list(p, feed.id@).contains(x) ==> entry_ids(feed).contains(x),
    ensures
        unread_of(after_read_all(p, feed), feed) == 0,
        g.id@ != feed.id@ ==> unread_of(after_read_all(p, feed), g) == unread_of(p, g),
{
    let i = read_position(p, feed.id@);
    let ids = entry_ids(feed);
    let list = if i >= 0 {
        add_missing(p[i].1, ids)
    } else {
        ids
    };
    lemma_unread_after_replace(p, feed.id@, list, feed);
    lemma_unread_after_replace(p, feed.id@, list, g);
    if i >= 0 {
        lemma_add_missing(p[i].1, ids);
        lemma_add_missing_exact(p[i].1, ids);
        assert(list.to_set() =~= ids.to_set());
        list.unique_seq_to_set();
        ids.unique_seq_to_set();
    }
}

} // verus!

verus! {

/// A feed as a list shows it: its position, its title and, where the list
/// shows it, its number of unread articles.
#[derive(Clone, Debug)]
pub struct FeedRow {
    pub index: usize,
    pub title: String,
    pub unread: Option<usize>,
}

impl FeedRow {
    /// The message of the row's button that opens the feed.
    pub fn select_message(&self) -> (res: FeedListM)
        ensures
            res == FeedListM::Select(self.index),
    {
        FeedListM::Select(self.index)
    }

    /// The message of the row's button that marks the feed read.
    pub fn read_all_message(&self) -> (res: FeedListM)
        ensures
            res == FeedListM::ReadAll(self.index),
    {
        FeedListM::ReadAll(self.index)
    }

    /// The message of the row's button in the sidebar section of tab `tab`:
    /// it selects the feed in that tab.
    pub fn sidebar_message(&self, tab: usize) -> (res: SidebarM)
        ensures
            res == SidebarM::Select((tab, Nav::Single(self.index))),
    {
        SidebarM::Select((tab, Nav::Single(self.index)))
    }
}

/// The feeds among the first `k` that have an unread article, with their
/// counts.
pub open spec fn unread_rows_spec(p: Seq<(Seq<char>, Seq<Seq<char>>)>, ch: Seq<(Feed, Imag)>, k: int) -> Seq<(int, int)>
    decreases k,
{
    if k <= 0 {
        seq![]
    } else {
        let before = unread_rows_spec(p, ch, k - 1);
        let n = unread_of(p, ch[k - 1].0);
        if n != 0 {
            before.push((k - 1, n))
        } else {
            before
        }
    }
}

/// The rows match the given positions and counts, and carry the feeds' titles.
pub open spec fn rows_match(ch: Seq<(Feed, Imag)>, rows: Seq<FeedRow>, spec_rows: Seq<(int, int)>, counted: bool) -> bool {
    &&& rows.len() == spec_rows.len()
    &&& forall|i: int|
        0 <= i < rows.len() ==> {
            &&& #[trigger] rows[i].index == spec_rows[i].0
            &&& 0 <= rows[i].index < ch.len()
            &&& ch[rows[i].index as int].0.title == Some(rows[i].title)
            &&& rows[i].unread == if counted {
                Some(spec_rows[i].1 as usize)
            } else {
                None::<usize>
            }
        }
}

/// Every feed with an unread article has a title.
pub open spec fn unread_feeds_titled(p: Seq<(Seq<char>, Seq<Seq<char>>)>, ch: Seq<(Feed, Imag)>) -> bool {
    forall|i: int| 0 <= i < ch.len() && unread_of(p, #[trigger] ch[i].0) != 0 ==> ch[i].0.title is Some
}

/// Every feed has a title.
pub open spec fn feeds_titled(ch: Seq<(Feed, Imag)>) -> bool {
    forall|i: int| 0 <= i < ch.len() ==> (#[trigger] ch[i].0).title is Some
}

/// The positions `0..k` of feeds, each with a zero count.
pub open spec fn all_rows_spec(k: int) -> Seq<(int, int)> {
    Seq::new(k as nat, |i: int| (i, 0int))
}

/// The title of a feed that has one.
fn title_of(feed: &Feed) -> (res: String)
    requires
        feed.title is Some,
    ensures
        feed.title == Some(res),
{
    match &feed.title {
        Some(t) => t.clone(),
        None => String::new(),
    }
}

/// The feeds that have an unread article, in order, with their titles and
/// numbers of unread articles.
pub fn unread_feed_rows(read: &Progress, channels: &Vec<(Feed, Imag)>) -> (res: Vec<FeedRow>)
    requires
        all_countable(read@, channels@),
        unread_feeds_titled(read@, channels@),
    ensures
        rows_match(channels@, res@, unread_rows_spec(read@, channels@, channels@.len() as int), true),
{
    let mut rows: Vec<FeedRow> = Vec::new();
    let mut i: usize = 0;
    while i < channels.len()
        invariant
            i <= channels@.len(),
            all_countable(read@, channels@),
            unread_feeds_titled(read@, channels@),
            rows_match(channels@, rows@, unread_rows_spec(read@, channels@, i as int), true),
        decreases channels@.len() - i,
    {
        assert(unread_countable(read@, channels@[i as int].0));
        let n = artikles_unread(read, &channels[i].0);
        if n != 0 {
            let title = title_of(&channels[i].0);
            rows.push(FeedRow { index: i, title, unread: Some(n) });
        }
        i += 1;
    }
    rows
}

/// All feeds, in order, with their titles.
pub fn all_feed_rows(channels: &Vec<(Feed, Imag)>) -> (res: Vec<FeedRow>)
    requires
        feeds_titled(channels@),
    ensures
        rows_match(channels@, res@, all_rows_spec(channels@.len() as int), false),
{
    let mut rows: Vec<FeedRow> = Vec::new();
    let mut i: usize = 0;
    while i < channels.len()
        invariant
            i <= channels@.len(),
            feeds_titled(channels@),
            rows_match(channels@, rows@, all_rows_spec(i as int), false),
        decreases channels@.len() - i,
    {
        let title = title_of(&channels[i].0);
        rows.push(FeedRow { index: i, title, unread: None });
        i += 1;
        assert(rows_match(channels@, rows@, all_rows_spec(i as int), false)) by {
            assert forall|j: int| 0 <= j < rows@.len() implies #[trigger] rows@[j].index == all_rows_spec(i as int)[j].0 by {}
        }
    }
    rows
}

/// The unread articles of the first `k` feeds.
pub open spec fn unread_total_spec(p: Seq<(Seq<char>, Seq<Seq<char>>)>, ch: Seq<(Feed, Imag)>, k: int) -> int
    decreases k,
{
    if k <= 0 {
        0
    } else {
        unread_total_spec(p, ch, k - 1) + unread_of(p, ch[k - 1].0)
    }
}

/// The total of unread articles stays within `usize` at every step of the sum.
pub open spec fn unread_total_fits(p: Seq<(Seq<char>, Seq<Seq<char>>)>, ch: Seq<(Feed, Imag)>) -> bool {
    forall|k: int| 0 <= k <= ch.len() ==> #[trigger] unread_total_spec(p, ch, k) <= usize::MAX
}

/// The number of unread articles of all feeds together.
pub fn total_unread(read: &Progress, channels: &Vec<(Feed, Imag)>) -> (res: usize)
    requires
        all_countable(read@, channels@),
        unread_total_fits(read@, channels@),
    ensures
        res == unread_total_spec(read@, channels@, channels@.len() as int),
{
    let mut total: usize = 0;
    let mut i: usize = 0;
    while i < channels.len()
        invariant
            i <= channels@.len(),
            all_countable(read@, channels@),
            unread_total_fits(read@, channels@),
            total == unread_total_spec(read@, channels@, i as int),
        decreases channels@.len() - i,
    {
        assert(unread_countable(read@, channels@[i as int].0));
        assert(unread_total_spec(read@, channels@, i + 1) <= usize::MAX);
        total = total + artikles_unread(read, &channels[i].0);
        i += 1;
    }
    total
}

} // verus!
