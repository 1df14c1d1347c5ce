use podcast_helper::{
    accepts_feed_bytes, parse_unchecked_feed, enclosure_from_entry, episodes_from_entries, feed_outcome, latest_episode_of, parse_feed,
    sort_newest_first, Episode, FeedEntry, LinkRecord, MediaContentRecord, MediaRecord,
    PodcastHelperError,
};

const RSS_FIXTURE: &[u8] = br#"<?xml version="1.0" encoding="UTF-8"?>
<rss version="2.0">
  <channel>
    <title>Example Show</title>
    <link>https://example.com/</link>
    <description>An example podcast</description>
    <item>
      <title>Episode 1: The Beginning</title>
      <guid>ep-1</guid>
      <pubDate>Mon, 01 Jan 2024 12:00:00 GMT</pubDate>
      <enclosure url="https://cdn.example.com/ep1.mp3" length="1048576" type="audio/mpeg"/>
    </item>
    <item>
      <title>Episode 3: The Finale</title>
      <guid>ep-3</guid>
      <pubDate>Fri, 01 Mar 2024 12:00:00 GMT</pubDate>
      <enclosure url="https://cdn.example.com/ep3.mp3" length="15728640" type="audio/mpeg"/>
    </item>
    <item>
      <title>Episode 2: The Middle</title>
      <guid>ep-2</guid>
      <pubDate>Thu, 01 Feb 2024 12:00:00 GMT</pubDate>
      <enclosure url="https://cdn.example.com/ep2.mp3" length="2097152" type="audio/mpeg"/>
    </item>
  </channel>
</rss>"#;

const ATOM_FIXTURE: &[u8] = br#"<?xml version="1.0" encoding="utf-8"?>
<feed xmlns="http://www.w3.org/2005/Atom">
  <title>Atom Show</title>
  <id>urn:example:atom-show</id>
  <updated>2024-02-01T12:00:00Z</updated>
  <entry>
    <title>Atom Episode 1</title>
    <id>urn:example:atom-ep1</id>
    <updated>2024-01-01T12:00:00Z</updated>
    <link rel="enclosure" type="audio/mp4" length="1000" href="https://cdn.example.com/atom-ep1.m4a"/>
  </entry>
  <entry>
    <title>Atom Episode 2</title>
    <id>urn:example:atom-ep2</id>
    <updated>2024-02-01T12:00:00Z</updated>
    <link rel="enclosure" type="audio/mp4" length="2000" href="https://cdn.example.com/atom-ep2.m4a"/>
  </entry>
</feed>"#;

const RSS_NO_DATES_FIXTURE: &[u8] = br#"<?xml version="1.0"?>
<rss version="2.0">
  <channel>
    <title>Undated Show</title>
    <item>
      <title>Undated Episode A</title>
      <enclosure url="https://cdn.example.com/a.mp3" length="10" type="audio/mpeg"/>
    </item>
    <item>
      <title>Undated Episode B</title>
      <enclosure url="https://cdn.example.com/b.mp3" length="20" type="audio/mpeg"/>
    </item>
  </channel>
</rss>"#;

const INVALID_FIXTURE: &[u8] = b"this is not xml at all {{{";

#[test]
fn parses_rss2_fixture_newest_first() {
    let episodes = parse_feed(RSS_FIXTURE, "https://example.com/feed.xml").unwrap();
    assert_eq!(episodes.len(), 3);
    assert_eq!(episodes[0].title.as_deref(), Some("Episode 3: The Finale"));
    assert_eq!(
        episodes[0].enclosure_url,
        "https://cdn.example.com/ep3.mp3"
    );
    assert_eq!(episodes[0].enclosure_type.as_deref(), Some("audio/mpeg"));
    assert_eq!(episodes[0].enclosure_size_bytes, Some(15_728_640));
    assert_eq!(episodes[2].title.as_deref(), Some("Episode 1: The Beginning"));
}

#[test]
fn parses_atom_fixture_and_finds_enclosure_link() {
    let episodes = parse_feed(ATOM_FIXTURE, "https://example.com/feed.atom").unwrap();
    assert_eq!(episodes.len(), 2);
    assert_eq!(episodes[0].title.as_deref(), Some("Atom Episode 2"));
    assert_eq!(
        episodes[0].enclosure_url,
        "https://cdn.example.com/atom-ep2.m4a"
    );
}

#[test]
fn latest_from_feed_without_dates_keeps_feed_order() {
    let episodes = parse_feed(RSS_NO_DATES_FIXTURE, "https://example.com/nodates.xml").unwrap();
    assert_eq!(episodes.len(), 2);
    assert_eq!(episodes[0].title.as_deref(), Some("Undated Episode A"));
}

#[test]
fn invalid_xml_is_a_distinct_error_variant() {
    let err = parse_feed(INVALID_FIXTURE, "https://example.com/broken.xml").unwrap_err();
    assert!(matches!(err, PodcastHelperError::InvalidFeed { .. }));
}

#[test]
fn feed_with_no_enclosures_yields_no_episodes() {
    let xml = br#"<?xml version="1.0"?>
<rss version="2.0"><channel><title>Text-only feed</title>
<item><title>Just text, no audio</title></item>
</channel></rss>"#;
    let episodes = parse_feed(xml, "https://example.com/textonly.xml").unwrap();
    assert!(episodes.is_empty());
}

#[test]
fn rss_episode_fields_are_normalized() {
    let episodes = parse_feed(RSS_FIXTURE, "https://example.com/feed.xml").unwrap();
    let ep = &episodes[1];
    assert_eq!(ep.title.as_deref(), Some("Episode 2: The Middle"));
    assert_eq!(ep.guid.as_deref(), Some("ep-2"));
    assert_eq!(ep.published_at.as_deref(), Some("2024-02-01T12:00:00+00:00"));
    assert_eq!(ep.enclosure_size_bytes, Some(2_097_152));
}

#[test]
fn invalid_feed_error_names_the_url() {
    match parse_feed(INVALID_FIXTURE, "https://example.com/broken.xml") {
        Err(PodcastHelperError::InvalidFeed { url, message }) => {
            assert_eq!(url, "https://example.com/broken.xml");
            assert!(!message.is_empty());
        }
        other => panic!("expected InvalidFeed, got {other:?}"),
    }
}

fn episode(title: &str, published_at: Option<&str>) -> Episode {
    Episode {
        guid: None,
        title: Some(title.to_string()),
        description: None,
        link: None,
        published_at: published_at.map(|p| p.to_string()),
        enclosure_url: format!("https://cdn.example.com/{title}.mp3"),
        enclosure_type: None,
        enclosure_size_bytes: None,
        image_url: None,
    }
}

fn titles(eps: &[Episode]) -> Vec<String> {
    eps.iter().map(|e| e.title.clone().unwrap()).collect()
}

#[test]
fn sort_is_newest_first_and_stable() {
    let sorted = sort_newest_first(vec![
        episode("a", Some("2024-01-01")),
        episode("b", None),
        episode("c", Some("2024-03-01")),
        episode("d", Some("2024-01-01")),
        episode("e", None),
        episode("f", Some("2024-02-01")),
    ]);
    assert_eq!(titles(&sorted), vec!["c", "f", "a", "d", "b", "e"]);
}

#[test]
fn latest_episode_is_the_first_or_empty_feed() {
    let latest = latest_episode_of(vec![episode("x", None), episode("y", None)], "u").unwrap();
    assert_eq!(latest.title.as_deref(), Some("x"));
    match latest_episode_of(vec![], "https://example.com/empty.xml") {
        Err(PodcastHelperError::EmptyFeed(url)) => assert_eq!(url, "https://example.com/empty.xml"),
        other => panic!("expected EmptyFeed, got {other:?}"),
    }
}

#[test]
fn latest_of_a_parsed_feed_is_its_newest_episode() {
    let episodes = parse_feed(RSS_FIXTURE, "https://example.com/feed.xml").unwrap();
    let latest = latest_episode_of(episodes, "https://example.com/feed.xml").unwrap();
    assert_eq!(latest.enclosure_url, "https://cdn.example.com/ep3.mp3");
}

fn entry(id: &str) -> FeedEntry {
    FeedEntry {
        id: id.to_string(),
        title: Some(format!("title {id}")),
        summary: Some("summary".to_string()),
        links: vec![],
        media: vec![],
        published: None,
        updated: None,
    }
}

fn link(href: &str, rel: Option<&str>) -> LinkRecord {
    LinkRecord {
        href: href.to_string(),
        rel: rel.map(|r| r.to_string()),
        media_type: Some("audio/mpeg".to_string()),
        length: Some(7),
    }
}

#[test]
fn enclosure_prefers_media_content_with_url_over_links() {
    let mut e = entry("1");
    e.links = vec![link("https://x/page", None), link("https://x/enc.mp3", Some("enclosure"))];
    assert_eq!(
        enclosure_from_entry(&e),
        Some(("https://x/enc.mp3".to_string(), Some("audio/mpeg".to_string()), Some(7)))
    );
    e.media = vec![
        MediaRecord { contents: vec![MediaContentRecord { url: None, content_type: None, size: Some(1) }], thumbnails: vec![] },
        MediaRecord {
            contents: vec![MediaContentRecord { url: Some("https://x/m.mp3".to_string()), content_type: None, size: Some(2) }],
            thumbnails: vec!["https://x/t.png".to_string()],
        },
    ];
    assert_eq!(
        enclosure_from_entry(&e),
        Some(("https://x/m.mp3".to_string(), None, Some(2)))
    );
    let ep = Episode::try_from_entry(&e).unwrap();
    assert_eq!(ep.link.as_deref(), Some("https://x/page"));
    assert_eq!(ep.image_url.as_deref(), Some("https://x/t.png"));
    assert_eq!(ep.guid.as_deref(), Some("1"));
    assert_eq!(ep.description.as_deref(), Some("summary"));
}

#[test]
fn entry_without_enclosure_is_no_episode() {
    let mut e = entry("");
    e.links = vec![link("https://x/page", Some("alternate"))];
    assert_eq!(Episode::try_from_entry(&e), None);
    e.links.push(link("https://x/a.mp3", Some("enclosure")));
    e.updated = Some("2024-05-05T00:00:00+00:00".to_string());
    let ep = Episode::try_from_entry(&e).unwrap();
    assert_eq!(ep.guid, None);
    assert_eq!(ep.published_at.as_deref(), Some("2024-05-05T00:00:00+00:00"));
}

#[test]
fn entries_without_enclosures_are_dropped_and_order_kept_without_dates() {
    let mut a = entry("a");
    a.links = vec![link("https://x/a.mp3", Some("enclosure"))];
    let b = entry("b");
    let mut c = entry("c");
    c.links = vec![link("https://x/c.mp3", Some("enclosure"))];
    let eps = episodes_from_entries(&vec![a, b, c]);
    assert_eq!(eps.len(), 2);
    assert_eq!(eps[0].enclosure_url, "https://x/a.mp3");
    assert_eq!(eps[1].enclosure_url, "https://x/c.mp3");
}

#[test]
fn feed_outcome_maps_parse_errors_to_invalid_feed() {
    match feed_outcome(Err("bad".to_string()), "https://f") {
        Err(PodcastHelperError::InvalidFeed { url, message }) => {
            assert_eq!(url, "https://f");
            assert_eq!(message, "bad");
        }
        other => panic!("expected InvalidFeed, got {other:?}"),
    }
    assert_eq!(feed_outcome(Ok(vec![]), "https://f").unwrap(), vec![]);
}

#[test]
fn ordinary_feeds_are_accepted_for_parsing() {
    assert!(accepts_feed_bytes(RSS_FIXTURE));
    assert!(accepts_feed_bytes(ATOM_FIXTURE));
    assert!(accepts_feed_bytes(RSS_NO_DATES_FIXTURE));
    assert!(accepts_feed_bytes(INVALID_FIXTURE));
    let french = "<?xml version=\"1.0\" encoding=\"UTF-8\"?><rss version=\"2.0\"><channel><title>L\u{2019}\u{e9}pisode \u{e0} Paris &#8217; &amp; 2024</title></channel></rss>";
    assert!(accepts_feed_bytes(french.as_bytes()));
}

#[test]
fn text_in_any_script_is_parsed() {
    let feed = "<rss version=\"2.0\"><channel><title>\u{e2a}\u{e27}\u{e31}\u{e2a}\u{e14}\u{e35} \u{928}\u{92e}\u{938}\u{94d}\u{924}\u{947} \u{633}\u{644}\u{627}\u{645} \u{10e5}\u{10d0}\u{10e0}\u{10d7}\u{10e3}\u{10da}\u{10d8}</title>\
<item><title>\u{e15}\u{e2d}\u{e19}\u{e17}\u{e35}\u{e48} \u{e51}</title><description>\u{6f1}\u{6f2}\u{6f3} \u{967}\u{968}\u{969}</description>\
<author>Zo\u{eb} \u{dc}nal</author>\
<enclosure url=\"https://cdn.example.com/a.mp3\" type=\"audio/mpeg\" length=\"1\"/></item></channel></rss>";
    assert!(accepts_feed_bytes(feed.as_bytes()));
    let episodes = parse_unchecked_feed(feed.as_bytes(), "https://example.com/f.xml").unwrap();
    assert_eq!(episodes.len(), 1);
    assert_eq!(episodes[0].title.as_deref(), Some("\u{e15}\u{e2d}\u{e19}\u{e17}\u{e35}\u{e48} \u{e51}"));
}

#[test]
fn long_digit_runs_outside_time_values_are_parsed() {
    let feed = b"<rss version=\"2.0\"><channel><item><guid>12345678901234567890123</guid>\
<itunes:duration xmlns:itunes=\"http://www.itunes.com/dtds/podcast-1.0.dtd\">01:02:03</itunes:duration>\
<enclosure url=\"https://cdn.example.com/1234567890123456789.mp3\" type=\"audio/mpeg\" length=\"1\"/></item></channel></rss>";
    assert!(accepts_feed_bytes(feed));
    let episodes = parse_unchecked_feed(feed, "https://example.com/f.xml").unwrap();
    assert_eq!(episodes[0].guid.as_deref(), Some("12345678901234567890123"));
}

#[test]
fn single_byte_encoding_declared_up_front_is_parsed() {
    let feed = b"<?xml version=\"1.0\" encoding=\"ISO-8859-1\"?><rss version=\"2.0\"><channel><title>Caf\xe9</title>\
<item><title>\xc9pisode</title><enclosure url=\"https://cdn.example.com/b.mp3\" type=\"audio/mpeg\" length=\"1\"/></item></channel></rss>";
    assert!(accepts_feed_bytes(feed));
    let episodes = parse_unchecked_feed(feed, "https://example.com/f.xml").unwrap();
    assert_eq!(episodes[0].title.as_deref(), Some("\u{c9}pisode"));
    let bom = b"\xef\xbb\xbf<?xml version='1.0' encoding='windows-1252'?><rss version=\"2.0\"/>";
    assert!(accepts_feed_bytes(bom));
}

#[test]
fn authors_with_addresses_are_parsed() {
    let feed = "<rss version=\"2.0\"><channel><managingEditor>Jos\u{e9} &lt;jose@example.com&gt;</managingEditor>\
<item><author>jose@example.com (Jos\u{e9} M\u{fc}ller)</author><author>Jos&#233;</author>\
<dc:creator xmlns:dc=\"http://purl.org/dc/elements/1.1/\">\u{c9}mile Zola, emile@example.com</dc:creator>\
<enclosure url=\"https://cdn.example.com/c.mp3\" type=\"audio/mpeg\" length=\"1\"/></item></channel></rss>";
    assert!(accepts_feed_bytes(feed.as_bytes()));
    assert_eq!(parse_unchecked_feed(feed.as_bytes(), "https://example.com/f.xml").unwrap().len(), 1);
    let json = "{\"version\":\"https://jsonfeed.org/version/1\",\"title\":\"t\",\"author\":{\"name\":\"Jos\\u00e9 <jose@example.com>\"},\
\"items\":[{\"id\":\"1\",\"title\":\"\u{c9}pisode\",\"attachments\":[{\"url\":\"https://cdn.example.com/d.mp3\",\"mime_type\":\"audio/mpeg\"}]}]}";
    assert!(accepts_feed_bytes(json.as_bytes()));
    assert!(parse_unchecked_feed(json.as_bytes(), "https://example.com/f.json").is_ok());
}

#[test]
fn feeds_that_could_make_the_parser_panic_are_refused() {
    let long_time = br#"<rss version="2.0"><channel><item><media:thumbnail xmlns:media="http://search.yahoo.com/mrss/" url="x" time="123456789012345678901234"/></item></channel></rss>"#;
    assert!(!accepts_feed_bytes(long_time));
    let joined = b"<itunes:duration>12345678<!-- c -->90123456</itunes:duration>";
    assert!(!accepts_feed_bytes(joined));
    let cdata = b"<itunes:duration>1234567<![CDATA[890123456]]></itunes:duration>";
    assert!(!accepts_feed_bytes(cdata));
    let split_by_tag = b"<itunes:duration>12345678</itunes:duration><e>90123456</e>";
    assert!(accepts_feed_bytes(split_by_tag));
    let arabic_digits = "<itunes:duration>\u{661}\u{662}:00</itunes:duration>";
    assert!(!accepts_feed_bytes(arabic_digits.as_bytes()));
    assert!(!accepts_feed_bytes(b"<itunes:duration>&#49;&#50;</itunes:duration>"));
    assert!(!accepts_feed_bytes(b"<media:text start=\"&#x661;\">x</media:text>"));
}

#[test]
fn non_ascii_next_to_an_address_in_a_person_field_is_refused() {
    assert!(!accepts_feed_bytes("<rss version=\"2.0\"><channel><item><author>Jo\u{ab}joe@example.com</author></item></channel></rss>".as_bytes()));
    assert!(!accepts_feed_bytes("<rss><channel><managingEditor>joe@example.com\u{bb} x</managingEditor></channel></rss>".as_bytes()));
    assert!(!accepts_feed_bytes("<rss><channel><webMaster>Jo \u{ab}<![CDATA[joe@example.com]]></webMaster></channel></rss>".as_bytes()));
    assert!(!accepts_feed_bytes("<rdf:RDF><item><dc:creator>Jo\u{ab}&lt;[(joe@example.com</dc:creator></item></rdf:RDF>".as_bytes()));
    assert!(!accepts_feed_bytes("<itunes:owner><itunes:name>Jo\u{ab}joe@example.com</itunes:name></itunes:owner>".as_bytes()));
    assert!(!accepts_feed_bytes(b"<author>Jo&#171;joe@example.com</author>"));
    assert!(!accepts_feed_bytes("{\"author\":{\"name\":\"Jo\u{ab}joe@example.com\"}}".as_bytes()));
    assert!(!accepts_feed_bytes(b"{\"author\":{\"name\":\"Jo\\u00abjoe@example.com\"}}"));
    match parse_unchecked_feed("<rss version=\"2.0\"><channel><item><author>Jo\u{ab}joe@example.com</author></item></channel></rss>".as_bytes(), "https://example.com/f.xml") {
        Err(PodcastHelperError::InvalidFeed { url, .. }) => assert_eq!(url, "https://example.com/f.xml"),
        other => panic!("expected InvalidFeed, got {other:?}"),
    }
}

#[test]
fn late_or_unknown_encoding_declarations_are_refused() {
    let late = b"<?xml version=\"1.0\"                                            encoding=\"ISO-8859-1\"?><rss/>";
    assert!(!accepts_feed_bytes(late));
    let second = b"<!-- x --><?xml version=\"1.0\" encoding=\"ISO-8859-1\"?><rss/>";
    assert!(!accepts_feed_bytes(second));
    assert!(!accepts_feed_bytes(b"<?xml version=\"1.0\" encoding=\"Shift_JIS\"?><rss/>"));
    assert!(!accepts_feed_bytes(b"<?xml version=\"1.0\" encoding=\"ISO-8859-1\"?><?xml version=\"1.0\" encoding=\"UTF-8\"?><rss/>"));
    assert!(accepts_feed_bytes(b"<rss/><?xml version=\"1.0\" encoding=\"UTF-8\"?>"));
    assert!(!accepts_feed_bytes(b"\xff\xfe<\0?\0x\0m\0l\0"));
    assert!(!accepts_feed_bytes(b"<\0?\0x\0m\0l\0"));
}

#[test]
fn refused_feed_is_an_invalid_feed_error() {
    let long_time = br#"<rss version="2.0"><channel><item><itunes:duration>12345678901234567890123:00:00</itunes:duration></item></channel></rss>"#;
    match parse_unchecked_feed(long_time, "https://example.com/f.xml") {
        Err(PodcastHelperError::InvalidFeed { url, message }) => {
            assert_eq!(url, "https://example.com/f.xml");
            assert_eq!(
                message,
                "feed refused before parsing: it holds a time value, person field, encoding declaration or UTF-16 start that the feed parser does not handle safely"
            );
        }
        other => panic!("expected InvalidFeed, got {other:?}"),
    }
    let episodes = parse_unchecked_feed(RSS_FIXTURE, "https://example.com/feed.xml").unwrap();
    assert_eq!(episodes.len(), 3);
}

#[test]
fn entries_without_id_or_link_get_a_non_empty_guid() {
    let xml = br#"<?xml version="1.0"?>
<rss version="2.0"><channel><title>t</title>
<item><title>No id</title><enclosure url="https://cdn.example.com/n.mp3" length="1" type="audio/mpeg"/></item>
</channel></rss>"#;
    let a = parse_feed(xml, "https://example.com/f.xml").unwrap();
    let b = parse_feed(xml, "https://example.com/f.xml").unwrap();
    assert_eq!(a.len(), 1);
    assert_eq!(a[0].title, b[0].title);
    assert_eq!(a[0].enclosure_url, b[0].enclosure_url);
    assert!(a[0].guid.is_some());
}

/// A small deterministic generator of pseudo-random numbers.
struct Lcg(u64);

impl Lcg {
    fn next(&mut self, n: usize) -> usize {
        self.0 = self.0.wrapping_mul(6364136223846793005).wrapping_add(1442695040888963407);
        ((self.0 >> 33) as usize) % n
    }
}

const TEXT_PIECES: &[&str] = &[
    "\u{ab}", "\u{bb}", "\u{e9}", "\u{661}", "\u{a0}", "joe", "@", "example.com", "x.org", "&lt;", "&gt;", "&amp;",
    "&#171;", "&#64;", "&#49;", "1234567", "89012345", "12", ":", ".", " ", "(", ")", "mailto:", "&lt;[(",
    "&gt;])", "a", "-", "<![CDATA[\u{ab}joe@x.org]]>", "<!-- 1234 -->", "<?pi 99?>",
];

const JSON_PIECES: &[&str] = &[
    "\u{ab}", "\u{bb}", "\u{e9}", "joe", "@", "example.com", "\\u00ab", "\\u0040", "\\u00e9", "\\\"", "<[(", ">])",
    " ", "mailto:", "a", ".", "(", ")",
];

const ELEMENTS: &[&str] = &["author", "managingEditor", "webMaster", "dc:creator", "itunes:author", "itunes:duration", "title"];

fn pieces(rng: &mut Lcg, from: &[&str]) -> String {
    let mut s = String::new();
    for _ in 0..1 + rng.next(6) {
        s.push_str(from[rng.next(from.len())]);
    }
    s
}

#[test]
fn accepted_generated_feeds_are_parsed_without_panicking() {
    let mut rng = Lcg(2024);
    let mut accepted = 0;
    let mut refused = 0;
    for round in 0..6000 {
        let doc = if round % 3 == 2 {
            format!(
                "{{\"version\":\"https://jsonfeed.org/version/1\",\"title\":\"t\",\"items\":[],\"author\":{{\"name\":\"{}\"}},\"authors\":[{{\"name\":\"{}\"}}]}}",
                pieces(&mut rng, JSON_PIECES),
                pieces(&mut rng, JSON_PIECES)
            )
        } else {
            let mut body = String::new();
            for _ in 0..1 + rng.next(3) {
                let element = ELEMENTS[rng.next(ELEMENTS.len())];
                body.push_str(&format!("<{element}>{}</{element}>", pieces(&mut rng, TEXT_PIECES)));
            }
            let time = ["12", "01:02:03", "1234567890123456789", "\u{661}", "&#49;", "1.5"][rng.next(6)];
            format!(
                "<rss version=\"2.0\" xmlns:itunes=\"http://www.itunes.com/dtds/podcast-1.0.dtd\" xmlns:dc=\"http://purl.org/dc/elements/1.1/\" xmlns:media=\"http://search.yahoo.com/mrss/\"><channel><title>c</title>{body}<itunes:owner><itunes:name>{}</itunes:name><itunes:email>o@x.org</itunes:email></itunes:owner><item><title>e</title>{body}<media:thumbnail url=\"https://x/t.jpg\" time=\"{time}\"/><enclosure url=\"https://x/e.mp3\" type=\"audio/mpeg\" length=\"1\"/></item></channel></rss>",
                pieces(&mut rng, TEXT_PIECES)
            )
        };
        if accepts_feed_bytes(doc.as_bytes()) {
            accepted += 1;
            let _ = parse_unchecked_feed(doc.as_bytes(), "https://example.com/f.xml");
        } else {
            refused += 1;
        }
    }
    assert!(accepted > 500, "accepted {accepted}");
    assert!(refused > 500, "refused {refused}");
}

#[test]
fn accepted_generated_documents_with_declarations_are_parsed_without_panicking() {
    let starts: &[&[u8]] = &[b"", b"\xef\xbb\xbf", b" "];
    let decls: &[&[u8]] = &[
        b"",
        b"<?xml version=\"1.0\"?>",
        b"<?xml version=\"1.0\" encoding=\"UTF-8\"?>",
        b"<?xml version=\"1.0\" encoding=\"ISO-8859-1\"?>",
        b"<?xml version='1.0' encoding='windows-1251'?>",
        b"<?xml version=\"1.0\" encoding=\"Shift_JIS\"?>",
        b"<?xml version='1.0'                                            encoding='latin1'?>",
    ];
    let middles: &[&[u8]] = &[
        b"",
        b"<!DOCTYPE rss PUBLIC \"-//x//y\" \"http://x/y.dtd\">",
        b"<!-- comment -->",
        b"<?xml version=\"1.0\" encoding=\"ISO-8859-1\"?>",
        b"<?xml encoding=\"UTF-8\"?>",
    ];
    let times: &[&[u8]] = &[b"12", b"01:02:03.5", b"12345678901234567890", b"\xd9\xa1", b"&#49;", b"1:2"];
    let titles: &[&[u8]] = &[b"plain", b"caf\xe9", b"caf\xc3\xa9", b"\xab joe@x.org", b"x\xe2\x80\x99s"];
    let mut rng = Lcg(7);
    let mut accepted = 0;
    let mut refused = 0;
    for _ in 0..3000 {
        let mut doc: Vec<u8> = Vec::new();
        doc.extend_from_slice(starts[rng.next(starts.len())]);
        doc.extend_from_slice(decls[rng.next(decls.len())]);
        doc.extend_from_slice(middles[rng.next(middles.len())]);
        doc.extend_from_slice(b"<rss version=\"2.0\" xmlns:media=\"http://search.yahoo.com/mrss/\" xmlns:itunes=\"http://www.itunes.com/dtds/podcast-1.0.dtd\"><channel><title>");
        doc.extend_from_slice(titles[rng.next(titles.len())]);
        doc.extend_from_slice(b"</title><item><title>");
        doc.extend_from_slice(titles[rng.next(titles.len())]);
        doc.extend_from_slice(b"</title><media:text start=\"");
        doc.extend_from_slice(times[rng.next(times.len())]);
        doc.extend_from_slice(b"\" end=\"");
        doc.extend_from_slice(times[rng.next(times.len())]);
        doc.extend_from_slice(b"\">t</media:text><itunes:duration>");
        doc.extend_from_slice(times[rng.next(times.len())]);
        doc.extend_from_slice(b"</itunes:duration><author>");
        doc.extend_from_slice(titles[rng.next(titles.len())]);
        doc.extend_from_slice(b"</author><enclosure url=\"https://x/e.mp3\" type=\"audio/mpeg\" length=\"1\"/></item></channel></rss>");
        if accepts_feed_bytes(&doc) {
            accepted += 1;
            let _ = parse_unchecked_feed(&doc, "https://example.com/f.xml");
        } else {
            refused += 1;
        }
    }
    assert!(accepted > 100, "accepted {accepted}");
    assert!(refused > 200, "refused {refused}");
}
