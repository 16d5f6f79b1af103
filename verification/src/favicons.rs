//! Finding the icon of a feed's web site.
use vstd::prelude::*;
use crate::text::{
    char_pos, chars_of, strip_all_suffixes, find_char, has_prefix, has_prefix_at, skip_prefixes, skip_spaces_to,
    strip_all_prefixes, trim_start_spec,
};

verus! {

/// The icon record of a feed: the feed's title and the file name of the
/// downloaded icon, if one was found.
#[derive(Clone, Debug)]
pub struct Imag {
    pub id: String,
    pub name: Option<String>,
}

/// The first line of `s` (lines are separated by `\n`) that begins, after its
/// leading white space, with `<img src`.
pub open spec fn first_img_line(s: Seq<char>) -> Option<Seq<char>>
    decreases s.len(),
{
    let n = char_pos(s, '\n');
    let line = s.subrange(0, if 0 <= n <= s.len() { n } else { 0 });
    if has_prefix(trim_start_spec(line), "<img src"@) {
        Some(line)
    } else if n < s.len() {
        proof {
            lemma_char_pos_bound(s, '\n');
        }
        first_img_line(s.subrange(n + 1, s.len() as int))
    } else {
        None
    }
}

/// What `get_img` finds in a line: the line without its leading white space
/// and without the `<img src="` in front, up to the first `"`.
pub open spec fn img_source(line: Seq<char>) -> Seq<char> {
    let rest = strip_all_prefixes(trim_start_spec(line), "<img src=\""@);
    rest.subrange(0, char_pos(rest, '"'))
}

/// The source of the first image of an HTML page, read line by line.
pub open spec fn get_img_spec(body: Seq<char>) -> Option<Seq<char>> {
    match first_img_line(body) {
        Some(line) => Some(img_source(line)),
        None => None,
    }
}

/// `char_pos` is at most the length.
pub proof fn lemma_char_pos_bound(s: Seq<char>, c: char)
    ensures
        0 <= char_pos(s, c) <= s.len(),
    decreases s.len(),
{
    if s.len() > 0 {
        lemma_char_pos_bound(s.drop_first(), c);
    }
}

/// The source of the first image tag that begins a line of `body`: the first
/// line that starts (after white space) with `<img src`, without the
/// `<img src="` in front and cut at the next `"`.
pub fn get_img(body: &str) -> (res: Option<String>)
    ensures
        res matches Some(r) ==> get_img_spec(body@) == Some(r@),
        res is None ==> get_img_spec(body@) is None,
{
    let cs = chars_of(body);
    let tag = chars_of("<img src");
    let open = chars_of("<img src=\"");
    let n = cs.len();
    let mut start: usize = 0;
    assert(cs@.subrange(0, n as int) =~= cs@);
    loop
        invariant
            start <= n,
            n == cs@.len(),
            tag@ == "<img src"@,
            open@ == "<img src=\""@,
            get_img_spec(body@) == get_img_spec(cs@.subrange(start as int, n as int)),
            cs@ == body@,
        decreases n - start,
    {
        let end = find_char(&cs, start, n, '\n');
        let ghost s = cs@.subrange(start as int, n as int);
        assert(s.subrange(0, end - start) =~= cs@.subrange(start as int, end as int));
        let a = skip_spaces_to(&cs, start, end);
        if has_prefix_at(&cs, a, end, &tag) {
            let b = skip_prefixes(&cs, a, end, &open);
            let q = find_char(&cs, b, end, '"');
            proof {
                let rest = cs@.subrange(b as int, end as int);
                assert(rest.subrange(0, q - b) =~= cs@.subrange(b as int, q as int));
            }
            return Some(String::from_str(body.substring_char(b, q)));
        }
        if end == n {
            return None;
        }
        proof {
            assert(s.subrange(end - start + 1, s.len() as int) =~= cs@.subrange(end + 1, n as int));
        }
        start = end + 1;
    }
}

} // verus!

verus! {

/// The url of a site's front page that `url` crate makes of an address: the
/// address without path and query. `None` when it is no address with a path.
pub uninterp spec fn spec_site_root(url: Seq<char>) -> Option<Seq<char>>;

/// The last segment of the path of an address, as the `url` crate reads it.
/// `None` when it is no address with a path.
pub uninterp spec fn spec_last_segment(url: Seq<char>) -> Option<Seq<char>>;

/// What the `webpage` crate reads of an HTML page fetched from `url`: its
/// `<meta>` values by name and the urls of its Open Graph images. `None` when
/// the page cannot be read.
pub uninterp spec fn spec_page(html: Seq<char>, url: Seq<char>) -> Option<(Map<Seq<char>, Seq<char>>, Seq<Seq<char>>)>;

/// Parses `url` with `url::Url::parse`, clears its path with
/// `path_segments_mut().clear()` and its query with `set_query(None)`, and
/// writes it out; the result is named by `spec_site_root`.
#[verifier::external_body]
fn site_root(url: &str) -> (res: Option<String>)
    ensures
        res matches Some(r) ==> spec_site_root(url@) == Some(r@),
        res is None ==> spec_site_root(url@) is None,
{
    let mut parsed = url::Url::parse(url).ok()?;
    parsed.path_segments_mut().ok()?.clear();
    parsed.set_query(None);
    Some(parsed.to_string())
}

/// Parses `url` with `url::Url::parse` and takes the last of its
/// `path_segments()`; the result is named by `spec_last_segment`.
#[verifier::external_body]
fn last_segment(url: &str) -> (res: Option<String>)
    ensures
        res matches Some(r) ==> spec_last_segment(url@) == Some(r@),
        res is None ==> spec_last_segment(url@) is None,
{
    let parsed = url::Url::parse(url).ok()?;
    let name = parsed.path_segments()?.next_back()?;
    Some(name.to_string())
}

/// What the reader uses of a web page: its `<meta>` values by name (each name
/// once) and the urls of its Open Graph images.
#[derive(Clone, Debug)]
pub struct PageMeta {
    pub meta: Vec<(String, String)>,
    pub images: Vec<String>,
}

/// `meta` holds each name once, and holds exactly the names and values of `m`.
pub open spec fn meta_matches(meta: Seq<(Seq<char>, Seq<char>)>, m: Map<Seq<char>, Seq<char>>) -> bool {
    &&& names_unique(meta)
    &&& forall|i: int| 0 <= i < meta.len() ==> m.dom().contains(#[trigger] meta[i].0) && m[meta[i].0] == meta[i].1
    &&& forall|k: Seq<char>| #[trigger] m.dom().contains(k) ==> exists|i: int| 0 <= i < meta.len() && meta[i].0 == k
}

/// Reads a page with `webpage::HTML::from_string` (given the page's url) and
/// takes its `meta` map (as a list) and the urls of its `opengraph.images`.
/// The list holds the map's entries in an order that is not stated; what it
/// holds is named by `spec_page`.
#[verifier::external_body]
fn parse_page(html: &str, url: &str) -> (res: Option<PageMeta>)
    ensures
        res is None <==> spec_page(html@, url@) is None,
        res matches Some(p) ==> {
            &&& meta_matches(p.meta.deep_view(), spec_page(html@, url@).unwrap().0)
            &&& p.images.deep_view() == spec_page(html@, url@).unwrap().1
        },
{
    let page = webpage::HTML::from_string(html.to_string(), Some(url.to_string())).ok()?;
    let images = page.opengraph.images.into_iter().map(|o| o.url).collect();
    Some(PageMeta { meta: page.meta.into_iter().collect(), images })
}

/// The value of `key` in a map, if it has one.
pub open spec fn map_get(m: Map<Seq<char>, Seq<char>>, key: Seq<char>) -> Option<Seq<char>> {
    if m.dom().contains(key) {
        Some(m[key])
    } else {
        None
    }
}

/// The logo of a page: the `og:logo` value, else the `og:img` value, else the
/// `msapplication-TileImage` value, else the first Open Graph image, else the
/// source of the first image tag that begins a line.
pub open spec fn logo_spec(m: Map<Seq<char>, Seq<char>>, images: Seq<Seq<char>>, body: Seq<char>) -> Option<Seq<char>> {
    if m.dom().contains("og:logo"@) {
        Some(m["og:logo"@])
    } else if m.dom().contains("og:img"@) {
        Some(m["og:img"@])
    } else if m.dom().contains("msapplication-TileImage"@) {
        Some(m["msapplication-TileImage"@])
    } else if images.len() > 0 {
        Some(images[0])
    } else {
        get_img_spec(body)
    }
}

/// An address as the page gives it made absolute: one that begins with
/// `http` stays, any other is put behind the site's url without its trailing
/// slashes.
pub open spec fn absolute_spec(logo: Seq<char>, base: Seq<char>) -> Seq<char> {
    if has_prefix(logo, "http"@) {
        logo
    } else {
        strip_all_suffixes(base, "/"@) + logo
    }
}

/// The icon of a site whose front page is at `base`, given the fetched page
/// (if it could be read) and the error of the fetch (empty when there was
/// none): the absolute logo url and its file name, or the error when there is
/// no logo. `None` where the page or the logo url cannot be read.
pub open spec fn icon_outcome(base: Seq<char>, page: Option<Seq<char>>, error: Seq<char>) -> Option<Result<(Seq<char>, Seq<char>), Seq<char>>> {
    let logo: Option<Option<Seq<char>>> = match page {
        Some(body) => match spec_page(body, base) {
            Some(p) => Some(logo_spec(p.0, p.1, body)),
            None => None,
        },
        None => Some(None),
    };
    match logo {
        None => None,
        Some(None) => Some(Err(error)),
        Some(Some(l)) => {
            let u = absolute_spec(l, base);
            match spec_last_segment(u) {
                Some(name) => Some(Ok((u, name))),
                None => None,
            }
        },
    }
}

/// The value of `key` in a list of names and values.
fn meta_lookup(meta: &Vec<(String, String)>, key: &String) -> (res: Option<String>)
    ensures
        res matches Some(v) ==> exists|i: int| 0 <= i < meta@.len() && meta.deep_view()[i] == (key@, v@),
        res is None ==> forall|i: int| 0 <= i < meta@.len() ==> meta.deep_view()[i].0 != key@,
{
    let mut i: usize = 0;
    while i < meta.len()
        invariant
            i <= meta@.len(),
            forall|j: int| 0 <= j < i ==> meta.deep_view()[j].0 != key@,
        decreases meta@.len() - i,
    {
        if meta[i].0 == *key {
            let v = meta[i].1.clone();
            assert(meta.deep_view()[i as int] == (key@, v@));
            return Some(v);
        }
        i += 1;
    }
    None
}

/// No name occurs twice in a list of names and values.
pub open spec fn names_unique(meta: Seq<(Seq<char>, Seq<char>)>) -> bool {
    forall|i: int, j: int| 0 <= i < j < meta.len() ==> #[trigger] meta[i].0 != #[trigger] meta[j].0
}

/// The value named `key` in a list of names and values, if the list has one.
pub open spec fn meta_value(meta: Seq<(Seq<char>, Seq<char>)>, key: Seq<char>) -> Option<Seq<char>> {
    if exists|i: int| 0 <= i < meta.len() && meta[i].0 == key {
        Some(meta[choose|i: int| 0 <= i < meta.len() && meta[i].0 == key].1)
    } else {
        None
    }
}

/// The logo of a read page, from its list of `<meta>` values (see
/// `logo_spec`, which reads them as a map).
pub open spec fn page_logo_spec(meta: Seq<(Seq<char>, Seq<char>)>, images: Seq<Seq<char>>, body: Seq<char>) -> Option<Seq<char>> {
    if meta_value(meta, "og:logo"@) is Some {
        meta_value(meta, "og:logo"@)
    } else if meta_value(meta, "og:img"@) is Some {
        meta_value(meta, "og:img"@)
    } else if meta_value(meta, "msapplication-TileImage"@) is Some {
        meta_value(meta, "msapplication-TileImage"@)
    } else if images.len() > 0 {
        Some(images[0])
    } else {
        get_img_spec(body)
    }
}

/// A list that holds exactly the entries of a map has the map's values.
pub proof fn lemma_meta_value(meta: Seq<(Seq<char>, Seq<char>)>, m: Map<Seq<char>, Seq<char>>, key: Seq<char>)
    requires
        meta_matches(meta, m),
    ensures
        meta_value(meta, key) == map_get(m, key),
{
    if exists|i: int| 0 <= i < meta.len() && meta[i].0 == key {
        let i = choose|i: int| 0 <= i < meta.len() && meta[i].0 == key;
        assert(m.dom().contains(meta[i].0));
    }
    if m.dom().contains(key) {
        let i = choose|i: int| 0 <= i < meta.len() && meta[i].0 == key;
        assert(meta[i].0 == key);
    }
}

/// The value named `key` in a list whose names are unique.
fn meta_get(meta: &Vec<(String, String)>, key: &str) -> (res: Option<String>)
    requires
        names_unique(meta.deep_view()),
    ensures
        res matches Some(v) ==> meta_value(meta.deep_view(), key@) == Some(v@),
        res is None ==> meta_value(meta.deep_view(), key@) is None,
{
    let k = String::from_str(key);
    let r = meta_lookup(meta, &k);
    proof {
        let list = meta.deep_view();
        if r is Some {
            let v = r.unwrap();
            let i = choose|i: int| 0 <= i < meta@.len() && list[i] == (key@, v@);
            assert(list[i].0 == key@);
            let c = choose|c: int| 0 <= c < list.len() && list[c].0 == key@;
            if c != i {
                if c < i {
                    assert(list[c].0 != list[i].0);
                } else {
                    assert(list[i].0 != list[c].0);
                }
            }
        }
    }
    r
}

/// The logo of a read page (see `page_logo_spec`): its `og:logo`, `og:img` or
/// `msapplication-TileImage` value, else its first Open Graph image, else the
/// source of the first image tag of `body` that begins a line.
pub fn page_logo(page: &PageMeta, body: &str) -> (res: Option<String>)
    requires
        names_unique(page.meta.deep_view()),
    ensures
        res matches Some(v) ==> page_logo_spec(page.meta.deep_view(), page.images.deep_view(), body@) == Some(v@),
        res is None ==> page_logo_spec(page.meta.deep_view(), page.images.deep_view(), body@) is None,
{
    if let Some(v) = meta_get(&page.meta, "og:logo") {
        return Some(v);
    }
    if let Some(v) = meta_get(&page.meta, "og:img") {
        return Some(v);
    }
    if let Some(v) = meta_get(&page.meta, "msapplication-TileImage") {
        return Some(v);
    }
    if page.images.len() > 0 {
        let v = page.images[0].clone();
        assert(page.images.deep_view()[0] == v@);
        return Some(v);
    }
    get_img(body)
}

/// `url` made absolute against `base` (see `absolute_spec`).
pub fn absolute(logo: &str, base: &str) -> (res: String)
    ensures
        res@ == absolute_spec(logo@, base@),
{
    let cs = chars_of(logo);
    let http = chars_of("http");
    if has_prefix_at(&cs, 0, cs.len(), &http) {
        assert(cs@.subrange(0, cs@.len() as int) =~= cs@);
        return String::from_str(logo);
    }
    assert(cs@.subrange(0, cs@.len() as int) =~= cs@);
    let bs = chars_of(base);
    let slash = chars_of("/");
    proof {
        reveal_strlit("/");
        assert(slash@ =~= seq!['/']);
        assert(slash@.len() == 1);
    }
    let mut end = bs.len();
    assert(bs@.subrange(0, end as int) =~= base@);
    while end >= 1 && bs[end - 1] == '/'
        invariant
            end <= bs@.len(),
            bs@ == base@,
            slash@ == "/"@,
            slash@ == seq!['/'],
            strip_all_suffixes(base@, "/"@) == strip_all_suffixes(bs@.subrange(0, end as int), "/"@),
        decreases end,
    {
        proof {
            let s = bs@.subrange(0, end as int);
            assert(s[s.len() - 1] == '/');
            assert(s.subrange(s.len() - 1, s.len() as int)[0] == '/');
            assert(s.subrange(s.len() - 1, s.len() as int) =~= slash@);
            assert(s.subrange(0, s.len() - 1) =~= bs@.subrange(0, end - 1));
        }
        end -= 1;
    }
    proof {
        let s = bs@.subrange(0, end as int);
        if end >= 1 {
            assert(s.subrange(s.len() - 1, s.len() as int) != slash@) by {
                assert(s.subrange(s.len() - 1, s.len() as int)[0] != slash@[0]);
            }
        }
    }
    let mut res = String::from_str(base.substring_char(0, end));
    res.append(logo);
    res
}

/// The url of the front page of the site at `url`: the address without its
/// path and query. `None` for what is no address with a path.
pub fn icon_base_url(url: &str) -> (res: Option<String>)
    ensures
        res matches Some(r) ==> spec_site_root(url@) == Some(r@),
        res is None ==> spec_site_root(url@) is None,
{
    site_root(url)
}

/// The icon of the site whose front page is at `base` (see `icon_outcome`):
/// `page` is the fetched page if it could be read, `error` the error of the
/// fetch (empty when there was none). `None` where the page or the logo url
/// cannot be read.
pub fn icon_from_page(base: &str, page: Option<String>, error: String) -> (res: Option<Result<(String, String), String>>)
    ensures
        res is None <==> icon_outcome(base@, match page { Some(p) => Some(p@), None => None }, error@) is None,
        res matches Some(r) ==> icon_outcome(base@, match page { Some(p) => Some(p@), None => None }, error@) == Some(
            match r {
                Ok((u, n)) => Ok((u@, n@)),
                Err(e) => Err(e@),
            },
        ),
{
    let logo = match &page {
        Some(body) => {
            match parse_page(body.as_str(), base) {
                Some(p) => {
                    proof {
                        let m = spec_page(body@, base@).unwrap().0;
                        lemma_meta_value(p.meta.deep_view(), m, "og:logo"@);
                        lemma_meta_value(p.meta.deep_view(), m, "og:img"@);
                        lemma_meta_value(p.meta.deep_view(), m, "msapplication-TileImage"@);
                    }
                    page_logo(&p, body.as_str())
                },
                None => {
                    return None;
                },
            }
        },
        None => None,
    };
    match logo {
        None => Some(Err(error)),
        Some(l) => {
            let u = absolute(l.as_str(), base);
            match last_segment(u.as_str()) {
                Some(name) => Some(Ok((u, name))),
                None => None,
            }
        },
    }
}

} // verus!

verus! {

impl Imag {
    /// The icon record of the feed titled `title`, after looking for the icon
    /// of its site: the file name of the icon when one was found.
    pub fn for_site(title: String, found: &Result<(String, String), String>) -> (res: Imag)
        ensures
            res.id == title,
            match found {
                Ok(f) => res.name == Some(f.1),
                Err(_) => res.name is None,
            },
    {
        let name = match found {
            Ok(f) => Some(f.1.clone()),
            Err(_) => None,
        };
        Imag { id: title, name }
    }
}

} // verus!
