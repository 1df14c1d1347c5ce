//! The normalized episode schema shared by RSS 0.9x/1.0/2.0, Atom and JSON
//! Feed, and the plain-value model of a feed entry that it is built from.

use vstd::prelude::*;

verus! {

/// A media content item of an entry (MediaRSS `media:content`, which also
/// carries an RSS `<enclosure>`).
#[derive(Debug, Clone, PartialEq)]
pub struct MediaContentRecord {
    pub url: Option<String>,
    pub content_type: Option<String>,
    pub size: Option<u64>,
}

/// A media object of an entry: its content items and its thumbnails' URIs.
#[derive(Debug, Clone, PartialEq)]
pub struct MediaRecord {
    pub contents: Vec<MediaContentRecord>,
    pub thumbnails: Vec<String>,
}

/// A link of an entry.
#[derive(Debug, Clone, PartialEq)]
pub struct LinkRecord {
    pub href: String,
    pub rel: Option<String>,
    pub media_type: Option<String>,
    pub length: Option<u64>,
}

/// One entry of a parsed feed, as plain values: its id, title and summary
/// texts, links, media objects, and its publication and update times as
/// RFC 3339 strings.
#[derive(Debug, Clone, PartialEq)]
pub struct FeedEntry {
    pub id: String,
    pub title: Option<String>,
    pub summary: Option<String>,
    pub links: Vec<LinkRecord>,
    pub media: Vec<MediaRecord>,
    pub published: Option<String>,
    pub updated: Option<String>,
}

/// One episode, normalized regardless of the source feed's format.
#[derive(Debug, Clone, PartialEq)]
pub struct Episode {
    pub guid: Option<String>,
    pub title: Option<String>,
    pub description: Option<String>,
    pub link: Option<String>,
    /// RFC 3339 timestamp, e.g. `2026-08-31T12:00:00+00:00`.
    pub published_at: Option<String>,
    pub enclosure_url: String,
    pub enclosure_type: Option<String>,
    pub enclosure_size_bytes: Option<u64>,
    pub image_url: Option<String>,
}

/// The first content item that has a URL.
pub open spec fn first_content_with_url(cs: Seq<MediaContentRecord>) -> Option<MediaContentRecord>
    decreases cs.len(),
{
    if cs.len() == 0 {
        None
    } else if cs[0].url is Some {
        Some(cs[0])
    } else {
        first_content_with_url(cs.drop_first())
    }
}

/// The first content item with a URL, over the media objects in order.
pub open spec fn first_media_content(ms: Seq<MediaRecord>) -> Option<MediaContentRecord>
    decreases ms.len(),
{
    if ms.len() == 0 {
        None
    } else {
        match first_content_with_url(ms[0].contents@) {
            Some(c) => Some(c),
            None => first_media_content(ms.drop_first()),
        }
    }
}

/// The link is an enclosure link (`rel="enclosure"`).
pub open spec fn is_enclosure_link(l: LinkRecord) -> bool {
    match l.rel {
        Some(r) => r@ == "enclosure"@,
        None => false,
    }
}

/// The first enclosure link.
pub open spec fn first_enclosure_link(ls: Seq<LinkRecord>) -> Option<LinkRecord>
    decreases ls.len(),
{
    if ls.len() == 0 {
        None
    } else if is_enclosure_link(ls[0]) {
        Some(ls[0])
    } else {
        first_enclosure_link(ls.drop_first())
    }
}

/// The audio enclosure of an entry, as (URL, media type, size): the first
/// media content with a URL, else the first enclosure link, else none.
pub open spec fn enclosure_spec(e: FeedEntry) -> Option<(String, Option<String>, Option<u64>)> {
    match first_media_content(e.media@) {
        Some(c) => Some((c.url->0, c.content_type, c.size)),
        None => match first_enclosure_link(e.links@) {
            Some(l) => Some((l.href, l.media_type, l.length)),
            None => None,
        },
    }
}

/// The first thumbnail URI over the media objects in order.
pub open spec fn first_thumbnail(ms: Seq<MediaRecord>) -> Option<String>
    decreases ms.len(),
{
    if ms.len() == 0 {
        None
    } else if ms[0].thumbnails@.len() > 0 {
        Some(ms[0].thumbnails@[0])
    } else {
        first_thumbnail(ms.drop_first())
    }
}

/// The episode an entry makes: none without an enclosure; otherwise the
/// entry's id (when not empty), title, summary, first link, publication
/// time (else update time), enclosure and first thumbnail.
pub open spec fn episode_of(e: FeedEntry) -> Option<Episode> {
    match enclosure_spec(e) {
        None => None,
        Some(enc) => Some(
            Episode {
                guid: if e.id@.len() > 0 { Some(e.id) } else { None },
                title: e.title,
                description: e.summary,
                link: if e.links@.len() > 0 { Some(e.links@[0].href) } else { None },
                published_at: match e.published {
                    Some(p) => Some(p),
                    None => e.updated,
                },
                enclosure_url: enc.0,
                enclosure_type: enc.1,
                enclosure_size_bytes: enc.2,
                image_url: first_thumbnail(e.media@),
            },
        ),
    }
}

/// A copy of an optional string.
pub(crate) fn clone_opt(o: &Option<String>) -> (r: Option<String>)
    ensures
        r == *o,
{
    match o {
        Some(s) => Some(s.clone()),
        None => None,
    }
}

/// The first content item of `cs` that has a URL.
fn content_with_url(cs: &Vec<MediaContentRecord>) -> (r: Option<&MediaContentRecord>)
    ensures
        match r {
            Some(c) => first_content_with_url(cs@) == Some(*c) && c.url is Some,
            None => first_content_with_url(cs@) is None,
        },
{
    let mut i: usize = 0;
    proof {
        assert(cs@.subrange(0, cs@.len() as int) =~= cs@);
    }
    while i < cs.len()
        invariant
            i <= cs@.len(),
            first_content_with_url(cs@) == first_content_with_url(cs@.subrange(i as int, cs@.len() as int)),
        decreases cs.len() - i,
    {
        let ghost rest = cs@.subrange(i as int, cs@.len() as int);
        if cs[i].url.is_some() {
            return Some(&cs[i]);
        }
        assert(rest.drop_first() =~= cs@.subrange(i + 1, cs@.len() as int));
        i = i + 1;
    }
    None
}

/// Pull the first usable audio enclosure out of an entry: the first media
/// content with a URL (feed parsing puts an RSS `<enclosure>` there too),
/// falling back to an Atom `<link rel="enclosure">`.
pub fn enclosure_from_entry(entry: &FeedEntry) -> (r: Option<(String, Option<String>, Option<u64>)>)
    ensures
        r == enclosure_spec(*entry),
{
    let mut i: usize = 0;
    proof {
        assert(entry.media@.subrange(0, entry.media@.len() as int) =~= entry.media@);
    }
    while i < entry.media.len()
        invariant
            i <= entry.media@.len(),
            first_media_content(entry.media@) == first_media_content(
                entry.media@.subrange(i as int, entry.media@.len() as int),
            ),
        decreases entry.media.len() - i,
    {
        let ghost rest = entry.media@.subrange(i as int, entry.media@.len() as int);
        proof {
            assert(rest[0] == entry.media@[i as int]);
            assert(entry.media@[i as int].contents@.subrange(0, entry.media@[i as int].contents@.len() as int)
                =~= entry.media@[i as int].contents@);
        }
        match content_with_url(&entry.media[i].contents) {
            Some(c) => {
                assert(first_media_content(rest) == Some(*c));
                let url = match &c.url {
                    Some(u) => u.clone(),
                    None => String::new(),
                };
                return Some((url, clone_opt(&c.content_type), c.size));
            },
            None => {},
        }
        assert(rest.drop_first() =~= entry.media@.subrange(i + 1, entry.media@.len() as int));
        i = i + 1;
    }
    let mut j: usize = 0;
    proof {
        assert(entry.links@.subrange(0, entry.links@.len() as int) =~= entry.links@);
    }
    while j < entry.links.len()
        invariant
            j <= entry.links@.len(),
            first_media_content(entry.media@) is None,
            first_enclosure_link(entry.links@) == first_enclosure_link(
                entry.links@.subrange(j as int, entry.links@.len() as int),
            ),
        decreases entry.links.len() - j,
    {
        let ghost rest = entry.links@.subrange(j as int, entry.links@.len() as int);
        let l = &entry.links[j];
        let is_enc = match &l.rel {
            Some(r) => crate::text::str_eq(r.as_str(), "enclosure"),
            None => false,
        };
        if is_enc {
            assert(rest[0] == *l);
            return Some((l.href.clone(), clone_opt(&l.media_type), l.length));
        }
        assert(rest.drop_first() =~= entry.links@.subrange(j + 1, entry.links@.len() as int));
        j = j + 1;
    }
    None
}

/// The first thumbnail URI over the media objects of `ms`.
fn thumbnail_of(ms: &Vec<MediaRecord>) -> (r: Option<String>)
    ensures
        r == first_thumbnail(ms@),
{
    let mut i: usize = 0;
    proof {
        assert(ms@.subrange(0, ms@.len() as int) =~= ms@);
    }
    while i < ms.len()
        invariant
            i <= ms@.len(),
            first_thumbnail(ms@) == first_thumbnail(ms@.subrange(i as int, ms@.len() as int)),
        decreases ms.len() - i,
    {
        let ghost rest = ms@.subrange(i as int, ms@.len() as int);
        if ms[i].thumbnails.len() > 0 {
            assert(rest[0] == ms@[i as int]);
            return Some(ms[i].thumbnails[0].clone());
        }
        assert(rest.drop_first() =~= ms@.subrange(i + 1, ms@.len() as int));
        i = i + 1;
    }
    None
}

impl Episode {
    /// Build an `Episode` from a feed entry, or `None` if it carries no audio
    /// enclosure at all: such an entry is no episode.
    pub fn try_from_entry(entry: &FeedEntry) -> (r: Option<Episode>)
        ensures
            r == episode_of(*entry),
    {
        let (enclosure_url, enclosure_type, enclosure_size_bytes) = match enclosure_from_entry(entry) {
            Some(enc) => enc,
            None => return None,
        };
        let guid = if entry.id.as_str().unicode_len() > 0 {
            Some(entry.id.clone())
        } else {
            None
        };
        let link = if entry.links.len() > 0 {
            Some(entry.links[0].href.clone())
        } else {
            None
        };
        let published_at = match &entry.published {
            Some(p) => Some(p.clone()),
            None => clone_opt(&entry.updated),
        };
        Some(
            Episode {
                guid,
                title: clone_opt(&entry.title),
                description: clone_opt(&entry.summary),
                link,
                published_at,
                enclosure_url,
                enclosure_type,
                enclosure_size_bytes,
                image_url: thumbnail_of(&entry.media),
            },
        )
    }
}

/// An entry makes an episode exactly when it has an enclosure, and the
/// episode carries that enclosure: URL, media type and size, whatever the
/// size is.
pub proof fn law_episode_carries_the_enclosure(e: FeedEntry)
    ensures
        (episode_of(e) is Some) == (enclosure_spec(e) is Some),
        episode_of(e) matches Some(ep) ==> enclosure_spec(e) == Some((ep.enclosure_url, ep.enclosure_type, ep.enclosure_size_bytes)),
{
}

/// An episode's publication time is the entry's publication time whenever
/// the entry has one; its update time stands in only when it has none.
pub proof fn law_publication_time_before_update_time(e: FeedEntry)
    ensures
        episode_of(e) matches Some(ep) ==> (e.published is Some ==> ep.published_at == e.published),
        episode_of(e) matches Some(ep) ==> (e.published is None ==> ep.published_at == e.updated),
{
}

/// The `k`th link of `ls` is the first whose `rel` is `enclosure`.
pub open spec fn first_enclosure_at(ls: Seq<LinkRecord>, k: int) -> bool {
    &&& 0 <= k < ls.len()
    &&& ls[k].rel matches Some(r) && r@ == "enclosure"@
    &&& forall|j: int| 0 <= j < k ==> !((#[trigger] ls[j]).rel matches Some(r) && r@ == "enclosure"@)
}

/// The first enclosure link of `ls` is at `k`.
proof fn lemma_first_enclosure_link_at(ls: Seq<LinkRecord>, k: int)
    requires
        first_enclosure_at(ls, k),
    ensures
        first_enclosure_link(ls) == Some(ls[k]),
    decreases k,
{
    if k > 0 {
        assert(!is_enclosure_link(ls[0]));
        assert forall|j: int| 0 <= j < k - 1 implies !((#[trigger] ls.drop_first()[j]).rel matches Some(r) && r@ == "enclosure"@) by {
            assert(ls.drop_first()[j] == ls[j + 1]);
        }
        lemma_first_enclosure_link_at(ls.drop_first(), k - 1);
    }
}

/// No link of `ls` is an enclosure link.
proof fn lemma_no_enclosure_link(ls: Seq<LinkRecord>)
    requires
        forall|j: int| 0 <= j < ls.len() ==> !((#[trigger] ls[j]).rel matches Some(r) && r@ == "enclosure"@),
    ensures
        first_enclosure_link(ls) is None,
    decreases ls.len(),
{
    if ls.len() > 0 {
        assert(!is_enclosure_link(ls[0]));
        assert forall|j: int| 0 <= j < ls.len() - 1 implies !((#[trigger] ls.drop_first()[j]).rel matches Some(r) && r@ == "enclosure"@) by {
            assert(ls.drop_first()[j] == ls[j + 1]);
        }
        lemma_no_enclosure_link(ls.drop_first());
    }
}

/// Where an entry has no media content with a URL, its enclosure is the
/// URL, media type and length of one and the same link: the first whose
/// `rel` is `enclosure`; with no such link it has none.
pub proof fn law_enclosure_is_the_first_enclosure_link(e: FeedEntry, k: int)
    requires
        first_media_content(e.media@) is None,
    ensures
        first_enclosure_at(e.links@, k) ==> enclosure_spec(e)
            == Some((e.links@[k].href, e.links@[k].media_type, e.links@[k].length)),
        (forall|j: int| 0 <= j < e.links@.len() ==> !((#[trigger] e.links@[j]).rel matches Some(r) && r@ == "enclosure"@))
            ==> enclosure_spec(e) is None,
{
    if first_enclosure_at(e.links@, k) {
        lemma_first_enclosure_link_at(e.links@, k);
    }
    if forall|j: int| 0 <= j < e.links@.len() ==> !((#[trigger] e.links@[j]).rel matches Some(r) && r@ == "enclosure"@) {
        lemma_no_enclosure_link(e.links@);
    }
}

} // verus!
