//! The feeds on disk: parsing feed files and putting the feed list together.
use vstd::prelude::*;
use crate::model::{Entry, Feed};
use crate::feed_bytes::safe_feed_bytes;
use crate::text::chars_of;

verus! {

/// The icon record of a feed: the feed's title and the file name of its icon.
#[derive(Clone, Debug)]
pub struct Imag {
    pub id: String,
    pub name: Option<String>,
}

/// The feed and each of its entries have an id that is not empty.
pub open spec fn ids_present(feed: Feed) -> bool {
    &&& feed.id@.len() > 0
    &&& forall|i: int| 0 <= i < feed.entries@.len() ==> (#[trigger] feed.entries@[i]).id@.len() > 0
}

/// No byte of `bytes` is `<` or `{`, with which an XML or a JSON feed begins.
pub open spec fn no_feed_start(bytes: Seq<u8>) -> bool {
    forall|i: int| 0 <= i < bytes.len() ==> #[trigger] bytes[i] != 0x3Cu8 && bytes[i] != 0x7Bu8
}

/// What the parser reads of an entry: the id the file gives it (empty where
/// it gives none), its title, its update time (seconds since the epoch and
/// nanoseconds), the `href` of each of its links and its content body.
pub type EntryText = (Seq<char>, Option<Seq<char>>, Option<(i64, u32)>, Seq<Seq<char>>, Option<Option<Seq<char>>>);

/// What the parser reads of a feed: the id the file gives it (empty where it
/// gives none), its title, the `href` of each of its links and its entries.
pub type FeedText = (Seq<char>, Option<Seq<char>>, Seq<Seq<char>>, Seq<EntryText>);

/// What `feed_rs::parser::parse` reads of the bytes of a feed file, before it
/// makes up the ids that the file does not give; `None` where it refuses
/// them.
pub uninterp spec fn spec_feed_text(bytes: Seq<u8>) -> Option<FeedText>;

/// The view of an optional text.
pub open spec fn opt_text(t: Option<String>) -> Option<Seq<char>> {
    match t {
        Some(s) => Some(s@),
        None => None,
    }
}

/// An entry holds what the parser read of it, and the id the file gives it
/// where the file gives one.
pub open spec fn entry_holds(e: Entry, t: EntryText) -> bool {
    &&& t.0.len() > 0 ==> e.id@ == t.0
    &&& opt_text(e.title) == t.1
    &&& e.updated == t.2
    &&& e.links.deep_view() == t.3
    &&& match e.content {
        Some(body) => t.4 == Some(opt_text(body)),
        None => t.4 is None,
    }
}

/// A feed holds what the parser read of it, entry by entry in order, and the
/// id the file gives it where the file gives one.
pub open spec fn feed_holds(f: Feed, t: FeedText) -> bool {
    &&& t.0.len() > 0 ==> f.id@ == t.0
    &&& opt_text(f.title) == t.1
    &&& f.links.deep_view() == t.2
    &&& f.entries@.len() == t.3.len()
    &&& forall|i: int| 0 <= i < t.3.len() ==> #[trigger] entry_holds(f.entries@[i], t.3[i])
}

/// Parses a feed (Atom, RSS or JSON Feed) with `feed_rs::parser::parse` and
/// takes the fields that the reader uses (the update time as seconds since
/// the epoch and nanoseconds). What it reads is a function of the bytes,
/// named by `spec_feed_text`, but for the ids it makes up where the file
/// gives none: from the first link and title, else at random; so no id is
/// empty. It fails on bytes that hold neither `<` nor `{`. It reads times
/// with `parse_npt`, which fails on some of them; the bytes it is given are
/// such that it cannot meet one (see `feed_bytes`).
#[verifier::external_body]
fn parse_feed_bytes(bytes: &[u8]) -> (res: Option<Feed>)
    requires
        safe_feed_bytes(bytes@),
    ensures
        res is None <==> spec_feed_text(bytes@) is None,
        res matches Some(f) ==> feed_holds(f, spec_feed_text(bytes@).unwrap()),
        no_feed_start(bytes@) ==> res is None,
        res matches Some(f) ==> ids_present(f),
{
    let f = feed_rs::parser::parse(bytes).ok()?;
    let links = |ls: Vec<feed_rs::model::Link>| ls.into_iter().map(|l| l.href).collect();
    let entries = f.entries.into_iter().map(|e| Entry {
        id: e.id,
        title: e.title.map(|t| t.content),
        updated: e.updated.map(|d| (d.timestamp(), d.timestamp_subsec_nanos())),
        links: links(e.links),
        content: e.content.map(|c| c.body),
    }).collect();
    Some(Feed { id: f.id, title: f.title.map(|t| t.content), links: links(f.links), entries })
}

/// Parses the bytes of a feed file: `None` where the parser refuses them (as
/// always where they hold neither `<` nor `{`), else the feed as the parser
/// reads it (see `spec_feed_text`), with an id that is not empty for the feed
/// and each entry. The bytes must be such that the parser cannot fail on a
/// time in them (see `is_safe_feed_bytes`).
pub fn parse_feed(bytes: &[u8]) -> (res: Option<Feed>)
    requires
        safe_feed_bytes(bytes@),
    ensures
        res is None <==> spec_feed_text(bytes@) is None,
        res matches Some(f) ==> feed_holds(f, spec_feed_text(bytes@).unwrap()),
        no_feed_start(bytes@) ==> res is None,
        res matches Some(f) ==> ids_present(f),
{
    parse_feed_bytes(bytes)
}

/// A feed file as found on disk: the parsed feed and its icon record, which
/// is `None` when the record file is missing, `Some(None)` when it exists but
/// cannot be read, and `Some(Some(record))` when it was read.
pub type ScannedFeed = (Feed, Option<Option<Imag>>);

/// The feeds whose icon record file is missing and that have a link: their
/// titles and first links, in order.
pub open spec fn missing_icons(s: Seq<ScannedFeed>) -> Seq<(Seq<char>, Seq<char>)>
    decreases s.len(),
{
    if s.len() == 0 {
        seq![]
    } else {
        let before = missing_icons(s.drop_last());
        let f = s.last().0;
        if s.last().1 is None && f.links@.len() > 0 {
            before.push((f.title.unwrap()@, f.links@[0]@))
        } else {
            before
        }
    }
}

/// Every scanned feed has a title.
pub open spec fn scanned_titled(s: Seq<ScannedFeed>) -> bool {
    forall|i: int| 0 <= i < s.len() ==> (#[trigger] s[i]).0.title is Some
}

/// The icon record that a scanned feed gets: the one read, else an empty one.
pub open spec fn icon_of(icon: Option<Option<Imag>>, rec: Imag) -> bool {
    match icon {
        Some(Some(i)) => rec == i,
        _ => rec.id@.len() == 0 && rec.name is None,
    }
}

/// Puts the feed list together from the scanned feed files: every feed with
/// its icon record (an empty one where none was read), and the titles and
/// first links of the feeds whose icon record file is missing (`None` when
/// there are none).
pub fn read_feeds(scanned: Vec<ScannedFeed>) -> (res: (Option<Vec<(Feed, Imag)>>, Option<Vec<(String, String)>>))
    requires
        scanned_titled(scanned@),
    ensures
        res.0 is Some,
        res.0.unwrap()@.len() == scanned@.len(),
        forall|i: int|
            0 <= i < scanned@.len() ==> #[trigger] res.0.unwrap()@[i].0 == scanned@[i].0 && icon_of(
                scanned@[i].1,
                res.0.unwrap()@[i].1,
            ),
        missing_icons(scanned@).len() == 0 ==> res.1 is None,
        missing_icons(scanned@).len() > 0 ==> res.1 is Some && res.1.unwrap().deep_view() == missing_icons(scanned@),
{
    let ghost all = scanned@;
    let total: usize = scanned.len();
    assert(all.len() == total);
    let mut rest = scanned;
    let mut mods: Vec<(Feed, Imag)> = Vec::new();
    let mut missing: Vec<(String, String)> = Vec::new();
    let mut i: usize = 0;
    while rest.len() > 0
        invariant
            scanned_titled(all),
            all.len() <= usize::MAX,
            i + rest@.len() == all.len(),
            rest@ == all.subrange(i as int, all.len() as int),
            mods@.len() == i,
            forall|j: int| 0 <= j < i ==> #[trigger] mods@[j].0 == all[j].0 && icon_of(all[j].1, mods@[j].1),
            missing.deep_view() == missing_icons(all.take(i as int)),
        decreases rest@.len(),
    {
        let ghost before = rest@;
        let (feed, icon) = rest.remove(0);
        let file_missing = icon.is_none();
        let ghost icon_g = icon;
        assert(all.take(i + 1).drop_last() =~= all.take(i as int));
        assert(all.take(i + 1).last() == all[i as int]);
        assert(before[0] == all[i as int]);
        let imag = match icon {
            Some(Some(rec)) => rec,
            _ => Imag { id: String::new(), name: None },
        };
        assert(icon_g == all[i as int].1);
        assert(icon_of(icon_g, imag));
        if file_missing && feed.links.len() > 0 {
            let title = match &feed.title {
                Some(t) => t.clone(),
                None => String::new(),
            };
            let link = feed.links[0].clone();
            let ghost m = missing.deep_view();
            missing.push((title, link));
            assert(missing.deep_view() =~= m.push((title@, link@)));
        }
        mods.push((feed, imag));
        i += 1;
        assert(rest@ =~= all.subrange(i as int, all.len() as int));
    }
    assert(all.take(i as int) =~= all);
    if missing.len() == 0 {
        (Some(mods), None)
    } else {
        (Some(mods), Some(missing))
    }
}


/// The position of the last `.` in `s`, or -1.
pub open spec fn last_dot(s: Seq<char>) -> int
    decreases s.len(),
{
    if s.len() == 0 {
        -1
    } else if s.last() == '.' {
        s.len() - 1
    } else {
        last_dot(s.drop_last())
    }
}

/// A file name whose extension is `xml`: after its last `.`, which is not
/// its first character, stands `xml`.
pub open spec fn is_feed_file_spec(name: Seq<char>) -> bool {
    let p = last_dot(name);
    p > 0 && name.subrange(p + 1, name.len() as int) == "xml"@
}

/// Whether a file of a feeds directory is a feed file: its extension is
/// `xml`.
pub fn is_feed_file(name: &str) -> (res: bool)
    ensures
        res == is_feed_file_spec(name@),
{
    let cs = chars_of(name);
    let mut i = cs.len();
    assert(cs@.take(i as int) =~= cs@);
    while i > 0 && cs[i - 1] != '.'
        invariant
            i <= cs@.len(),
            cs@ == name@,
            last_dot(name@) == last_dot(cs@.take(i as int)),
        decreases i,
    {
        assert(cs@.take(i as int).drop_last() =~= cs@.take(i - 1));
        i -= 1;
    }
    proof {
        reveal_strlit("xml");
    }
    if i <= 1 {
        return false;
    }
    let p = i - 1;
    assert(last_dot(name@) == p);
    let n = cs.len();
    if n - p != 4 {
        assert(name@.subrange(p + 1, n as int).len() != 3);
        return false;
    }
    let ok = cs[p + 1] == 'x' && cs[p + 2] == 'm' && cs[p + 3] == 'l';
    proof {
        let sub = name@.subrange(p + 1, n as int);
        let xml = "xml"@;
        assert(xml.len() == 3 && xml[0] == 'x' && xml[1] == 'm' && xml[2] == 'l');
        assert(sub[0] == cs@[p + 1] && sub[1] == cs@[p + 2] && sub[2] == cs@[p + 3]);
        if ok {
            assert(sub =~= xml);
        } else {
            assert(sub != xml) by {
                if sub == xml {
                    assert(sub[0] == xml[0] && sub[1] == xml[1] && sub[2] == xml[2]);
                }
            }
        }
    }
    ok
}

} // verus!
