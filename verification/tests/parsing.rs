use unirss::controls::Controls;
use unirss::favicons::{absolute, get_img, icon_base_url, icon_from_page, page_logo, Imag as SiteIcon, PageMeta};
use unirss::localize::{lang_code, langs_well_formed, locale_code, translate, Lang};
use unirss::model::{Entry, Feed, Nav, Progress, Window};
use unirss::feed_bytes::is_safe_feed_bytes;
use unirss::per::{is_feed_file, parse_feed, read_feeds, Imag};
use unirss::settings::{Language, PSettings, Them};
use unirss::text::trim;
use unirss::views::{ArtikleListPage, FeedListPage, FeedViewPage, Layout};
use unirss::{dir, dir_on};

fn s(x: &str) -> String {
    x.to_string()
}

fn entry(id: &str) -> Entry {
    Entry {
        id: s(id),
        title: Some(format!("title {}", id)),
        updated: None,
        links: vec![format!("https://example.org/{}", id)],
        content: Some(Some(format!("<p>{}</p>", id))),
    }
}

fn feed(id: &str, entries: Vec<Entry>, links: Vec<&str>) -> Feed {
    Feed { id: s(id), title: Some(format!("feed {}", id)), links: links.into_iter().map(s).collect(), entries }
}

fn imag() -> Imag {
    Imag { id: String::new(), name: None }
}

#[test]
fn get_img_takes_the_first_image_line() {
    assert_eq!(get_img("<html>\n  <img src=\"/a.png\" alt=x>\n<img src=\"/b.png\">"), Some(s("/a.png")));
    assert_eq!(get_img("no image here\nstill none"), None);
    assert_eq!(get_img("\t<img srcset=\"x\">"), Some(s("<img srcset=")));
    assert_eq!(get_img("<img src=\"<img src=\"c.png\""), Some(s("c.png")));
    assert_eq!(get_img("<p><img src=\"inline.png\"></p>"), None);
    assert_eq!(get_img("<img src=\"open"), Some(s("open")));
}

#[test]
fn trim_removes_unicode_white_space() {
    assert_eq!(trim("  a b \t\n"), s("a b"));
    assert_eq!(trim("\u{3000}x\u{a0}"), s("x"));
    assert_eq!(trim(" \n "), s(""));
    assert_eq!(trim("plain"), s("plain"));
    assert_eq!(trim(&trim("  twice ")), s("twice"));
}

#[test]
fn absolute_urls_keep_http_and_join_others() {
    assert_eq!(absolute("https://cdn.org/x.png", "https://site.org/"), s("https://cdn.org/x.png"));
    assert_eq!(absolute("/logo.png", "https://site.org//"), s("https://site.org/logo.png"));
    assert_eq!(absolute("logo.png", "https://site.org"), s("https://site.orglogo.png"));
}

#[test]
fn icon_base_url_drops_path_and_query() {
    assert_eq!(icon_base_url("https://example.com/feeds/news.xml?x=1"), Some(s("https://example.com/")));
    assert_eq!(icon_base_url("not a url"), None);
}

#[test]
fn icon_from_page_prefers_og_logo() {
    let page = "<html><head><meta property=\"og:image\" content=\"https://img.org/i.jpg\">\n<meta property=\"og:logo\" content=\"/static/logo.svg\"></head></html>";
    assert_eq!(
        icon_from_page("https://example.com/", Some(s(page)), String::new()),
        Some(Ok((s("https://example.com/static/logo.svg"), s("logo.svg"))))
    );
}

#[test]
fn icon_from_page_falls_back_to_og_image_then_img_tag() {
    let page = "<html><head><meta property=\"og:image\" content=\"https://img.org/pics/i.jpg\"></head></html>";
    assert_eq!(
        icon_from_page("https://example.com/", Some(s(page)), String::new()),
        Some(Ok((s("https://img.org/pics/i.jpg"), s("i.jpg"))))
    );
    let page = "<html><body>\n<img src=\"/img/icon.png\">\n</body></html>";
    assert_eq!(
        icon_from_page("https://example.com/", Some(s(page)), String::new()),
        Some(Ok((s("https://example.com/img/icon.png"), s("icon.png"))))
    );
    let page = "<html><body>nothing</body></html>";
    assert_eq!(icon_from_page("https://example.com/", Some(s(page)), String::new()), Some(Err(String::new())));
}

#[test]
fn icon_from_page_reports_the_fetch_error() {
    assert_eq!(icon_from_page("https://example.com/", None, s("timeout")), Some(Err(s("timeout"))));
}

#[test]
fn icon_record_takes_the_file_name() {
    let found = Ok((s("https://a.org/x.png"), s("x.png")));
    let rec = SiteIcon::for_site(s("Feed"), &found);
    assert_eq!(rec.id, s("Feed"));
    assert_eq!(rec.name, Some(s("x.png")));
    let rec = SiteIcon::for_site(s("Feed"), &Err(s("e")));
    assert_eq!(rec.name, None);
}

#[test]
fn parse_feed_reads_atom() {
    let xml = "<feed xmlns=\"http://www.w3.org/2005/Atom\"><title>Sample</title><id>feed1</id><link href=\"https://site.org/\"/><entry><title>First</title><id>entry1</id><updated>2005-07-31T12:29:29Z</updated><link href=\"https://site.org/1\"/><content type=\"html\">Body</content></entry></feed>";
    let f = parse_feed(xml.as_bytes()).unwrap();
    assert_eq!(f.id, s("feed1"));
    assert_eq!(f.title, Some(s("Sample")));
    assert_eq!(f.links, vec![s("https://site.org/")]);
    assert_eq!(f.entries.len(), 1);
    assert_eq!(f.entries[0].id, s("entry1"));
    assert_eq!(f.entries[0].title, Some(s("First")));
    assert_eq!(f.entries[0].updated, Some((1122812969, 0)));
    assert_eq!(f.entries[0].links, vec![s("https://site.org/1")]);
    assert_eq!(f.entries[0].content, Some(Some(s("Body"))));
    assert!(parse_feed(b"just text").is_none());
}

#[test]
fn read_feeds_lists_feeds_without_icon_record() {
    let scanned = vec![
        (feed("a", vec![], vec!["https://a.org/"]), None),
        (feed("b", vec![], vec!["https://b.org/"]), Some(Some(Imag { id: s("feed b"), name: Some(s("b.png")) }))),
        (feed("c", vec![], vec![]), None),
        (feed("d", vec![], vec!["https://d.org/"]), Some(None)),
    ];
    let (mods, missing) = read_feeds(scanned);
    let mods = mods.unwrap();
    assert_eq!(mods.len(), 4);
    assert_eq!(mods[1].1.name, Some(s("b.png")));
    assert_eq!(mods[3].1.name, None);
    assert_eq!(mods[3].1.id, s(""));
    assert_eq!(missing, Some(vec![(s("feed a"), s("https://a.org/"))]));
    let (_, none) = read_feeds(vec![(feed("e", vec![], vec![]), None)]);
    assert_eq!(none, None);
}

#[test]
fn locale_codes() {
    assert_eq!(locale_code(Some(s("de-DE"))), Some(s("de")));
    assert_eq!(locale_code(Some(s("C"))), Some(s("en")));
    assert_eq!(locale_code(None), Some(s("en")));
    assert_eq!(locale_code(Some(s("x"))), None);
    assert_eq!(locale_code(Some(s("é"))), Some(s("é")));
    assert_eq!(lang_code(Language::De), Some(s("de")));
    assert_eq!(lang_code(Language::En), Some(s("en")));
}

#[test]
fn translate_uses_the_last_matching_language() {
    let langs = vec![
        Lang { name: s("de"), words: vec![(s("theme"), s("Thema alt"))] },
        Lang { name: s("en"), words: vec![(s("theme"), s("Theme"))] },
        Lang { name: s("de"), words: vec![(s("theme"), s("Thema"))] },
    ];
    assert_eq!(translate(&langs, &s("de"), "theme"), Some(s("Thema")));
    assert_eq!(translate(&langs, &s("en"), "language"), Some(s("missing")));
    assert_eq!(translate(&langs, &s("fr"), "theme"), None);
    assert!(langs_well_formed(&langs));
    let twice = vec![Lang { name: s("de"), words: vec![(s("a"), s("1")), (s("b"), s("2")), (s("a"), s("3"))] }];
    assert!(!langs_well_formed(&twice));
}

#[test]
fn directories_and_defaults() {
    assert_eq!(dir(), s("/home/me/.local/share/unirss"));
    assert_eq!(dir_on(true), s("/storage/emulated/0/.uni/unirss"));
    let p = PSettings::default();
    assert_eq!(p.lang, Some(Language::De));
    assert!(p.browser);
    assert_eq!(p.theme, Some(Them::Default));
    assert_eq!(p.git.unwrap().repo, s(""));
    assert_eq!(Language::all(), [Language::System, Language::En, Language::De]);
    assert_eq!(Them::all(), [Them::Dark, Them::Light, Them::Default]);
    assert_eq!(Language::De.label_key(), "german");
    assert_eq!(Them::Light.label_key(), "light-theme");
    assert_eq!(Them::chosen(None), Them::Default);
    let c = Controls::with_settings(PSettings { git: None, lang: None, browser: false, theme: Some(Them::Dark) });
    assert_eq!(c.theme, Them::Dark);
    assert!(c.state.settings.git.is_none());
}

#[test]
fn layout_follows_the_breakpoint() {
    let mut w = Window::default();
    assert_eq!(w.layout(true), Layout::Content);
    w.sidebar = true;
    assert_eq!(w.layout(true), Layout::SidebarAndContent);
    assert_eq!(w.layout(false), Layout::Sidebar);
    w.sideselect = true;
    assert_eq!(w.layout(false), Layout::Content);
}

#[test]
fn pages_follow_the_tab() {
    let mut c = Controls::with_settings(PSettings::default());
    assert!(matches!(c.state.feed_list_page(), FeedListPage::Artikles(ArtikleListPage::Missing)));
    c.state.channels = Some(vec![(feed("a", vec![entry("1"), entry("2")], vec![]), imag()), (feed("b", vec![], vec![]), imag())]);
    c.state.read = Progress { read: vec![(s("a"), vec![s("1")])] };
    match c.state.feed_list_page() {
        FeedListPage::Artikles(ArtikleListPage::Mixed(items)) => {
            assert_eq!(items.len(), 1);
            assert_eq!(items[0].artikle, 1);
        },
        other => panic!("unexpected {:?}", other),
    }
    c.state.window.tab = (0, Nav::All);
    match c.state.feed_list_page() {
        FeedListPage::UnreadFeeds(rows) => {
            assert_eq!(rows.len(), 1);
            assert_eq!(rows[0].unread, Some(1));
            assert_eq!(rows[0].title, s("feed a"));
        },
        other => panic!("unexpected {:?}", other),
    }
    c.state.window.tab = (1, Nav::Blank);
    match c.state.feed_list_page() {
        FeedListPage::AllFeeds(rows) => assert_eq!(rows.len(), 2),
        other => panic!("unexpected {:?}", other),
    }
    c.state.window.tab = (2, Nav::Blank);
    assert!(matches!(c.state.feed_list_page(), FeedListPage::Empty));
    c.state.feed = Some(0);
    match c.state.feed_list_page() {
        FeedListPage::Artikles(ArtikleListPage::Feed(0, rows)) => assert_eq!(rows.len(), 2),
        other => panic!("unexpected {:?}", other),
    }
    c.state.artikle = Some(1);
    assert!(matches!(c.state.artikle_list_page(), ArtikleListPage::Article));
    match c.feed_view_page() {
        FeedViewPage::Plain(t, b) => {
            assert_eq!(t, s("title 2"));
            assert_eq!(b, s("<p>2</p>"));
        },
        other => panic!("unexpected {:?}", other),
    }
    c.markdown = Some(s("2"));
    assert!(matches!(c.feed_view_page(), FeedViewPage::Markdown(_)));
}

#[test]
fn sidebar_counts_unread_articles() {
    let mut c = Controls::with_settings(PSettings::default());
    let v = c.state.sidebar_view();
    assert_eq!(v.unread_total, 0);
    assert!(!v.show_unread);
    c.state.channels = Some(vec![(feed("a", vec![entry("1"), entry("2")], vec![]), imag()), (feed("b", vec![entry("3")], vec![]), imag())]);
    c.state.read = Progress { read: vec![(s("b"), vec![s("3")])] };
    c.state.unread_expanded = true;
    let v = c.state.sidebar_view();
    assert_eq!(v.unread_total, 2);
    assert!(v.show_unread);
    assert_eq!(v.unread_rows.len(), 1);
    assert_eq!(v.unread_rows[0].index, 0);
    assert!(v.all_rows.is_empty());
}

#[test]
fn page_logo_prefers_meta_values_then_images_then_img_tags() {
    let body = "<html>\n  <img src=\"/tag.png\">\n</html>";
    let meta = |pairs: Vec<(&str, &str)>| pairs.into_iter().map(|(a, b)| (a.to_string(), b.to_string())).collect();
    let full = PageMeta {
        meta: meta(vec![("msapplication-TileImage", "/tile.png"), ("og:img", "/img.png"), ("og:logo", "/logo.png")]),
        images: vec!["/og.png".to_string()],
    };
    assert_eq!(page_logo(&full, body), Some("/logo.png".to_string()));
    let no_logo = PageMeta { meta: meta(vec![("msapplication-TileImage", "/tile.png"), ("og:img", "/img.png")]), images: vec![] };
    assert_eq!(page_logo(&no_logo, body), Some("/img.png".to_string()));
    let tile = PageMeta { meta: meta(vec![("msapplication-TileImage", "/tile.png")]), images: vec!["/og.png".to_string()] };
    assert_eq!(page_logo(&tile, body), Some("/tile.png".to_string()));
    let images = PageMeta { meta: meta(vec![("description", "x")]), images: vec!["/og.png".to_string()] };
    assert_eq!(page_logo(&images, body), Some("/og.png".to_string()));
    let bare = PageMeta { meta: vec![], images: vec![] };
    assert_eq!(page_logo(&bare, body), Some("/tag.png".to_string()));
    assert_eq!(page_logo(&bare, "<p>none</p>"), None);
}

#[test]
fn parsed_feeds_have_ids_even_where_the_file_has_none() {
    let xml = "<feed xmlns=\"http://www.w3.org/2005/Atom\"><title>t</title>\
               <link href=\"https://example.org/\"/>\
               <entry><title>a</title><link href=\"https://example.org/a\"/></entry>\
               <entry><title>b</title></entry></feed>";
    let f = parse_feed(xml.as_bytes()).unwrap();
    assert!(!f.id.is_empty());
    assert_eq!(f.entries.len(), 2);
    assert!(f.entries.iter().all(|e| !e.id.is_empty()));
    assert!(parse_feed(b"").is_none());
}

#[test]
fn feed_bytes_with_unreadable_times_are_told_apart() {
    let ok = "<?xml version=\"1.0\" encoding=\"UTF-8\"?><rss version=\"2.0\"><channel><title>Grüße</title>\
              <item><guid>https://m.example/113456789012345678901234</guid><itunes:duration>01:02:03</itunes:duration>\
              <title><![CDATA[Episode 12]]></title><description>It&#8217;s &#x661; here</description></item></channel></rss>";
    assert!(is_safe_feed_bytes(ok.as_bytes()));
    assert!(parse_feed(ok.as_bytes()).is_some());
    assert!(!is_safe_feed_bytes(b"<itunes:duration>123456789012345678901</itunes:duration>"));
    assert!(!is_safe_feed_bytes(b"<itunes:duration>1234567890123456:00:00</itunes:duration>"));
    assert!(is_safe_feed_bytes(b"<itunes:duration>123456789012345:00:00</itunes:duration>"));
    assert!(!is_safe_feed_bytes("<itunes:duration>\u{661}</itunes:duration>".as_bytes()));
    assert!(is_safe_feed_bytes(b"<itunes:duration>&#49;2:00</itunes:duration>"));
    assert!(!is_safe_feed_bytes(b"<itunes:duration>123456789012345&#54;&#58;00:00</itunes:duration>"));
    assert!(is_safe_feed_bytes(b"<itunes:duration>12<!-- -->34<?pi x?>56</itunes:duration>"));
    assert!(!is_safe_feed_bytes(b"<itunes:duration>1234567890<!-- -->1234567890</itunes:duration>"));
    assert!(!is_safe_feed_bytes(b"<itunes:duration>12<!DOCTYPE x>34</itunes:duration>"));
    assert!(!is_safe_feed_bytes(b"<media:text start='&#x661;'>x</media:text>"));
    assert!(is_safe_feed_bytes(b"<media:text start='a&amp;b &bogus; 1'>x</media:text>"));
    assert!(!is_safe_feed_bytes(b"<media:text start='1234567890&#49;234567890'>x</media:text>"));
    assert!(!is_safe_feed_bytes(b"<duration a='>'>12345678901<![CDATA[234567890]]></duration>"));
    assert!(is_safe_feed_bytes(b"<a>1234567890<![CDATA[1234567890123]]></a>"));
    assert!(!is_safe_feed_bytes(b"<media:thumbnail url='x' time=\"123456789012345678901\"/>"));
    assert!(!is_safe_feed_bytes("<media:text start='\u{966}'>x</media:text>".as_bytes()));
    assert!(is_safe_feed_bytes(b"<media:text start='00:00:01.5' end='00:00:03'>x</media:text>"));
    assert!(is_safe_feed_bytes(b"<a datetime=\"123456789012345678901\"/>"));
    assert!(!is_safe_feed_bytes(b"<?xml version=\"1.0\" encoding=\"Shift_JIS\"?><rss/>"));
    assert!(is_safe_feed_bytes(b"<?xml version=\"1.0\" encoding=\"ISO-8859-1\"?><rss/>"));
    assert!(is_safe_feed_bytes(b"<?xml version=\"1.0\" encoding=\"windows-1251\"?><rss/>"));
    assert!(is_safe_feed_bytes(b"<?xml version='1.0' encoding = 'utf-8'?><rss/>"));
    assert!(!is_safe_feed_bytes(&[0x3C, 0x00, 0x3F, 0x00]));
    assert!(!is_safe_feed_bytes(&[0xFF, 0xFE, 0x3C, 0x00]));
    assert!(is_safe_feed_bytes(b""));
}

#[test]
fn feed_files_are_those_with_the_xml_extension() {
    assert!(is_feed_file("news.xml"));
    assert!(is_feed_file("a.b.xml"));
    assert!(is_feed_file("..xml"));
    assert!(!is_feed_file(".xml"));
    assert!(!is_feed_file("news.XML"));
    assert!(!is_feed_file("news.xml.bak"));
    assert!(!is_feed_file("xml"));
    assert!(!is_feed_file("news.ron"));
}
