//! Feed handling: parse feed bytes into episodes, newest first, and pick the
//! latest one. Parsing the RSS/Atom/JSON document itself is `feed-rs`'s
//! work; which entries are episodes, and in which order they come, is
//! decided here.

use vstd::prelude::*;
use crate::episode::{Episode, FeedEntry, LinkRecord, MediaContentRecord, MediaRecord, enclosure_spec, episode_of};
use crate::error::PodcastHelperError;
use crate::feed_check::{accepts_feed_bytes, feed_bytes_accepted};
use crate::text::{seq_lt, str_lt, law_order_is_decided_by_the_first_difference, lemma_seq_lt_transitive, lemma_seq_lt_trichotomy};

verus! {

broadcast use vstd::seq_lib::group_seq_properties;

/// `feed_rs::model::Entry`, read by the conversion into `FeedEntry`.
#[verifier::external_type_specification]
#[verifier::external_body]
pub struct ExFeedEntry(feed_rs::model::Entry);

/// `feed_rs::model::MediaObject`, read by the conversion into `MediaRecord`.
#[verifier::external_type_specification]
#[verifier::external_body]
pub struct ExMediaObject(feed_rs::model::MediaObject);

/// What a feed entry holds from the document itself. Its id is kept where
/// the entry has a link: the parser then takes the document's id, or makes
/// one from the first link and the title. An entry with neither id nor
/// link gets a random UUID, so the id of a link-less entry is left out.
pub struct EntryContent {
    pub linked_id: Option<String>,
    pub title: Option<String>,
    pub summary: Option<String>,
    pub links: Seq<LinkRecord>,
    pub media: Seq<MediaRecord>,
    pub published: Option<String>,
    pub updated: Option<String>,
}

/// The content of an entry: all of it, its id where it has a link.
pub open spec fn content_of(e: FeedEntry) -> EntryContent {
    EntryContent {
        linked_id: if e.links@.len() > 0 { Some(e.id) } else { None },
        title: e.title,
        summary: e.summary,
        links: e.links@,
        media: e.media@,
        published: e.published,
        updated: e.updated,
    }
}

/// The contents of a list of entries, in order.
pub open spec fn contents_of(entries: Seq<FeedEntry>) -> Seq<EntryContent> {
    entries.map_values(|e: FeedEntry| content_of(e))
}

/// What `feed_rs::parser::parse` makes of a document, the ids of link-less
/// entries left aside: the contents of its entries, in document order, or
/// the parser's error message.
pub uninterp spec fn feed_contents_of(xml_bytes: Seq<u8>) -> Result<Seq<EntryContent>, Seq<char>>;

/// The parse outcome by its views, the ids of link-less entries left aside.
pub open spec fn parse_view(r: Result<Vec<FeedEntry>, String>) -> Result<Seq<EntryContent>, Seq<char>> {
    match r {
        Ok(v) => Ok(contents_of(v@)),
        Err(e) => Err(e@),
    }
}

/// Calls `feed_rs::parser::parse` on the bytes and turns each entry of the
/// parsed feed into a `FeedEntry` (one for one, in order), or the error into
/// its message (`to_string`). Claimed: the outcome, with the ids of
/// link-less entries left aside, is a function of the bytes, named
/// `feed_contents_of`; and every entry's id is non-empty (the parser fills
/// each empty id, from the first link and the title where there is a link,
/// else with a random UUID). The parser panics on some inputs:
/// `feed_bytes_accepted` leaves them out (see `feed_check`).
#[verifier::external_body]
fn parse_feed_document(xml_bytes: &[u8]) -> (res: Result<Vec<FeedEntry>, String>)
    requires
        feed_bytes_accepted(xml_bytes@),
    ensures
        parse_view(res) == feed_contents_of(xml_bytes@),
        res matches Ok(v) ==> forall|i: int| 0 <= i < v@.len() ==> (#[trigger] v@[i]).id@.len() > 0,
{
    match feed_rs::parser::parse(xml_bytes) {
        Ok(feed) => Ok(feed.entries.iter().map(entry_record).collect()),
        Err(e) => Err(e.to_string()),
    }
}

/// Copies the fields of a `feed_rs::model::Entry` that episodes read: id,
/// title and summary text, links, media objects (through `media_record`),
/// and the publication and update times through chrono's `to_rfc3339`.
#[verifier::external_body]
fn entry_record(e: &feed_rs::model::Entry) -> FeedEntry {
    FeedEntry {
        id: e.id.clone(),
        title: e.title.as_ref().map(|t| t.content.clone()),
        summary: e.summary.as_ref().map(|t| t.content.clone()),
        links: e.links.iter().map(|l| LinkRecord {
            href: l.href.clone(),
            rel: l.rel.clone(),
            media_type: l.media_type.clone(),
            length: l.length,
        }).collect(),
        media: e.media.iter().map(media_record).collect(),
        published: e.published.map(|d| d.to_rfc3339()),
        updated: e.updated.map(|d| d.to_rfc3339()),
    }
}

/// Copies the content items (URL and media type as strings, size) and the
/// thumbnail URIs of a `feed_rs::model::MediaObject`.
#[verifier::external_body]
fn media_record(m: &feed_rs::model::MediaObject) -> MediaRecord {
    MediaRecord {
        contents: m.content.iter().map(|c| MediaContentRecord {
            url: c.url.as_ref().map(|u| u.to_string()),
            content_type: c.content_type.as_ref().map(|t| t.to_string()),
            size: c.size,
        }).collect(),
        thumbnails: m.thumbnails.iter().map(|t| t.image.uri.clone()).collect(),
    }
}

/// The episodes of a list of entries, in entry order: those entries that
/// carry an enclosure.
pub open spec fn episodes_spec(entries: Seq<FeedEntry>) -> Seq<Episode> {
    entries.filter_map(|e: FeedEntry| episode_of(e))
}

/// The sort key of an episode: its publication time, by its characters.
pub open spec fn pub_key(e: Episode) -> Option<Seq<char>> {
    match e.published_at {
        Some(p) => Some(p@),
        None => None,
    }
}

/// Key `a` sorts strictly before key `b`: no date sorts before any date,
/// and dates compare as strings.
pub open spec fn key_lt(a: Option<Seq<char>>, b: Option<Seq<char>>) -> bool {
    match (a, b) {
        (None, Some(_)) => true,
        (Some(x), Some(y)) => seq_lt(x, y),
        _ => false,
    }
}

/// No episode is followed by a newer one.
pub open spec fn newest_first(s: Seq<Episode>) -> bool {
    forall|i: int, j: int| 0 <= i < j < s.len() ==> !key_lt(pub_key(#[trigger] s[i]), pub_key(#[trigger] s[j]))
}

/// The episodes of `s` with key `k`, in order.
pub open spec fn with_key(s: Seq<Episode>, k: Option<Seq<char>>) -> Seq<Episode> {
    s.filter(|e: Episode| pub_key(e) == k)
}

/// `r` holds the episodes of `s`, and episodes of equal key come in the
/// same order in both.
pub open spec fn same_key_groups(r: Seq<Episode>, s: Seq<Episode>) -> bool {
    forall|k: Option<Seq<char>>| #[trigger] with_key(r, k) == with_key(s, k)
}

/// Exactly one of `a < b`, `a == b`, `b < a` holds of keys.
pub proof fn lemma_key_trichotomy(a: Option<Seq<char>>, b: Option<Seq<char>>)
    ensures
        key_lt(a, b) || a == b || key_lt(b, a),
        !(key_lt(a, b) && key_lt(b, a)),
        key_lt(a, b) ==> a != b,
{
    match (a, b) {
        (Some(x), Some(y)) => lemma_seq_lt_trichotomy(x, y),
        _ => {},
    }
}

/// The key order is transitive.
pub proof fn lemma_key_transitive(a: Option<Seq<char>>, b: Option<Seq<char>>, c: Option<Seq<char>>)
    requires
        key_lt(a, b),
        key_lt(b, c),
    ensures
        key_lt(a, c),
{
    match (a, b, c) {
        (Some(x), Some(y), Some(z)) => lemma_seq_lt_transitive(x, y, z),
        _ => {},
    }
}

/// Filtering keeps nothing where no element has the key.
proof fn lemma_with_key_none(s: Seq<Episode>, k: Option<Seq<char>>)
    requires
        forall|i: int| 0 <= i < s.len() ==> pub_key(#[trigger] s[i]) != k,
    ensures
        with_key(s, k) == Seq::<Episode>::empty(),
    decreases s.len(),
{
    reveal(Seq::filter);
    if s.len() > 0 {
        lemma_with_key_none(s.drop_last(), k);
    }
}

/// Filtering keeps everything where every element has the key.
proof fn lemma_with_key_all(s: Seq<Episode>, k: Option<Seq<char>>)
    requires
        forall|i: int| 0 <= i < s.len() ==> pub_key(#[trigger] s[i]) == k,
    ensures
        with_key(s, k) == s,
    decreases s.len(),
{
    reveal(Seq::filter);
    if s.len() > 0 {
        lemma_with_key_all(s.drop_last(), k);
        assert(s.drop_last().push(s.last()) =~= s);
    }
}

/// An element of `s` with key `k` lies in `with_key(s, k)`, and every
/// element of `with_key(s, k)` lies in `s` and has key `k`.
proof fn lemma_with_key_members(s: Seq<Episode>, k: Option<Seq<char>>)
    ensures
        forall|i: int| 0 <= i < s.len() && pub_key(s[i]) == k ==> #[trigger] with_key(s, k).contains(s[i]),
        forall|e: Episode| #[trigger] with_key(s, k).contains(e) ==> s.contains(e) && pub_key(e) == k,
{
    let pred = |e: Episode| pub_key(e) == k;
    assert forall|i: int| 0 <= i < s.len() && pub_key(s[i]) == k implies #[trigger] with_key(s, k).contains(s[i]) by {
        s.lemma_filter_contains(pred, i);
    }
    assert forall|e: Episode| #[trigger] with_key(s, k).contains(e) implies s.contains(e) && pub_key(e) == k by {
        s.lemma_filter_contains_rev(pred, e);
        let j = choose|j: int| 0 <= j < s.filter(pred).len() && s.filter(pred)[j] == e;
        s.lemma_filter_pred(pred, j);
    }
}

/// Whether key `a` sorts strictly before key `b`.
fn published_before(a: &Option<String>, b: &Option<String>) -> (r: bool)
    ensures
        r == key_lt(
            match a { Some(x) => Some(x@), None => None },
            match b { Some(y) => Some(y@), None => None },
        ),
{
    match (a, b) {
        (None, Some(_)) => true,
        (Some(x), Some(y)) => str_lt(x.as_str(), y.as_str()),
        _ => false,
    }
}

/// Where `x` goes into `r` (newest first) so that it follows every episode
/// at least as new as itself: before the first one that is older.
fn insertion_point(r: &Vec<Episode>, x: &Episode) -> (p: usize)
    requires
        newest_first(r@),
    ensures
        p <= r@.len(),
        forall|j: int| 0 <= j < p ==> !key_lt(pub_key(#[trigger] r@[j]), pub_key(*x)),
        forall|j: int| p <= j < r@.len() ==> key_lt(pub_key(#[trigger] r@[j]), pub_key(*x)),
{
    let mut p: usize = 0;
    while p < r.len()
        invariant
            p <= r@.len(),
            newest_first(r@),
            forall|j: int| 0 <= j < p ==> !key_lt(pub_key(#[trigger] r@[j]), pub_key(*x)),
        decreases r.len() - p,
    {
        if published_before(&r[p].published_at, &x.published_at) {
            assert forall|j: int| p <= j < r@.len() implies key_lt(pub_key(#[trigger] r@[j]), pub_key(*x)) by {
                if j > p {
                    assert(!key_lt(pub_key(r@[p as int]), pub_key(r@[j])));
                    lemma_key_trichotomy(pub_key(r@[p as int]), pub_key(r@[j]));
                    if pub_key(r@[j]) != pub_key(r@[p as int]) {
                        lemma_key_transitive(pub_key(r@[j]), pub_key(r@[p as int]), pub_key(*x));
                    }
                }
            }
            return p;
        }
        p = p + 1;
    }
    p
}

/// Inserting `x` at its insertion point keeps `r` newest first, and adds
/// `x` at the end of its key group.
proof fn lemma_insert_keeps_order(r: Seq<Episode>, x: Episode, p: int)
    requires
        newest_first(r),
        0 <= p <= r.len(),
        forall|j: int| 0 <= j < p ==> !key_lt(pub_key(#[trigger] r[j]), pub_key(x)),
        forall|j: int| p <= j < r.len() ==> key_lt(pub_key(#[trigger] r[j]), pub_key(x)),
    ensures
        newest_first(r.insert(p, x)),
        forall|k: Option<Seq<char>>| #[trigger] with_key(r.insert(p, x), k) == if pub_key(x) == k {
            with_key(r, k).push(x)
        } else {
            with_key(r, k)
        },
{
    let r2 = r.insert(p, x);
    assert forall|i: int, j: int| 0 <= i < j < r2.len() implies !key_lt(pub_key(#[trigger] r2[i]), pub_key(#[trigger] r2[j])) by {
        if i < p && j == p {
        } else if i == p && j > p {
            lemma_key_trichotomy(pub_key(r[j - 1]), pub_key(x));
        } else if i < p && j > p {
            assert(r2[j] == r[j - 1]);
        } else if i > p {
            assert(r2[i] == r[i - 1] && r2[j] == r[j - 1]);
        }
    }
    let a = r.subrange(0, p);
    let b = r.subrange(p, r.len() as int);
    assert(r =~= a + b);
    assert(r2 =~= a + seq![x] + b);
    assert forall|k: Option<Seq<char>>| #[trigger] with_key(r2, k) == if pub_key(x) == k {
        with_key(r, k).push(x)
    } else {
        with_key(r, k)
    } by {
        let pred = |e: Episode| pub_key(e) == k;
        Seq::filter_distributes_over_add(a + seq![x], b, pred);
        Seq::filter_distributes_over_add(a, seq![x], pred);
        Seq::filter_distributes_over_add(a, b, pred);
        a.lemma_filter_push(x, pred);
        assert(a + seq![x] =~= a.push(x));
        if pub_key(x) == k {
            assert forall|i: int| 0 <= i < b.len() implies pub_key(#[trigger] b[i]) != k by {
                lemma_key_trichotomy(pub_key(b[i]), pub_key(x));
            }
            lemma_with_key_none(b, k);
            assert(with_key(b, k) =~= Seq::<Episode>::empty());
            assert(with_key(r2, k) =~= with_key(a, k).push(x));
            assert(with_key(r, k) =~= with_key(a, k));
        } else {
            assert(with_key(r2, k) =~= with_key(a, k) + with_key(b, k));
        }
    }
}

/// Order episodes newest first, keeping the relative order of episodes with
/// equal publication times (a stable sort, by publication time descending,
/// with undated episodes last).
pub fn sort_newest_first(episodes: Vec<Episode>) -> (r: Vec<Episode>)
    ensures
        newest_first(r@),
        same_key_groups(r@, episodes@),
{
    let ghost orig = episodes@;
    let mut rest = episodes;
    let mut r: Vec<Episode> = Vec::new();
    let ghost mut c: int = 0;
    proof {
        assert(orig.subrange(0, 0) =~= Seq::<Episode>::empty());
        assert forall|k: Option<Seq<char>>| #[trigger] with_key(r@, k) == with_key(orig.subrange(0, c), k) by {
            reveal(Seq::filter);
        }
        assert(rest@ =~= orig.subrange(0, orig.len() as int));
    }
    while rest.len() > 0
        invariant
            0 <= c <= orig.len(),
            rest@ == orig.subrange(c, orig.len() as int),
            newest_first(r@),
            forall|k: Option<Seq<char>>| #[trigger] with_key(r@, k) == with_key(orig.subrange(0, c), k),
        decreases rest.len(),
    {
        let x = rest.remove(0);
        assert(x == orig[c]);
        let p = insertion_point(&r, &x);
        let ghost r_old = r@;
        r.insert(p, x);
        proof {
            lemma_insert_keeps_order(r_old, x, p as int);
            assert(orig.subrange(0, c + 1) =~= orig.subrange(0, c).push(x));
            assert forall|k: Option<Seq<char>>| #[trigger] with_key(r@, k) == with_key(orig.subrange(0, c + 1), k) by {
                orig.subrange(0, c).lemma_filter_push(x, |e: Episode| pub_key(e) == k);
                assert(with_key(r_old, k) == with_key(orig.subrange(0, c), k));
            }
            assert(rest@ =~= orig.subrange(c + 1, orig.len() as int));
            c = c + 1;
        }
    }
    proof {
        assert(orig.subrange(0, c) =~= orig);
    }
    r
}

/// The latest episode of a feed (the first of its newest-first episodes) is
/// one of the feed's episodes, and no episode of the feed is newer.
pub proof fn law_latest_is_newest(entries: Seq<FeedEntry>, eps: Seq<Episode>)
    requires
        newest_first(eps),
        same_key_groups(eps, episodes_spec(entries)),
        eps.len() > 0,
    ensures
        episodes_spec(entries).contains(eps[0]),
        forall|e: Episode| #[trigger] episodes_spec(entries).contains(e) ==> !key_lt(pub_key(eps[0]), pub_key(e)),
{
    let all = episodes_spec(entries);
    let k0 = pub_key(eps[0]);
    lemma_with_key_members(eps, k0);
    lemma_with_key_members(all, k0);
    assert(with_key(eps, k0) == with_key(all, k0));
    assert(with_key(eps, k0).contains(eps[0]));
    assert forall|e: Episode| #[trigger] all.contains(e) implies !key_lt(pub_key(eps[0]), pub_key(e)) by {
        let k = pub_key(e);
        lemma_with_key_members(eps, k);
        lemma_with_key_members(all, k);
        let i = choose|i: int| 0 <= i < all.len() && all[i] == e;
        assert(with_key(all, k).contains(all[i]));
        assert(with_key(eps, k) == with_key(all, k));
        assert(eps.contains(e));
        let j = choose|j: int| 0 <= j < eps.len() && eps[j] == e;
        if j == 0 {
            lemma_key_trichotomy(k0, k);
        } else {
            assert(!key_lt(pub_key(eps[0]), pub_key(eps[j])));
        }
    }
}

/// The newest-first order of a feed's episodes is fully determined: two
/// orders that are both newest first and keep the same key groups are the
/// same sequence.
pub proof fn law_newest_first_order_is_unique(r1: Seq<Episode>, r2: Seq<Episode>)
    requires
        newest_first(r1),
        newest_first(r2),
        same_key_groups(r1, r2),
    ensures
        r1 == r2,
    decreases r1.len(),
{
    if r1.len() == 0 || r2.len() == 0 {
        if r1.len() > 0 {
            lemma_with_key_members(r1, pub_key(r1[0]));
            assert(with_key(r1, pub_key(r1[0])) == with_key(r2, pub_key(r1[0])));
            lemma_with_key_none(r2, pub_key(r1[0]));
            assert(with_key(r1, pub_key(r1[0])).contains(r1[0]));
        } else if r2.len() > 0 {
            lemma_with_key_members(r2, pub_key(r2[0]));
            assert(with_key(r1, pub_key(r2[0])) == with_key(r2, pub_key(r2[0])));
            lemma_with_key_none(r1, pub_key(r2[0]));
            assert(with_key(r2, pub_key(r2[0])).contains(r2[0]));
        } else {
            assert(r1 =~= r2);
        }
    } else {
        let k1 = pub_key(r1[0]);
        let k2 = pub_key(r2[0]);
        lemma_with_key_members(r1, k1);
        lemma_with_key_members(r2, k1);
        lemma_with_key_members(r1, k2);
        lemma_with_key_members(r2, k2);
        assert(with_key(r1, k1) == with_key(r2, k1));
        assert(with_key(r1, k2) == with_key(r2, k2));
        assert(with_key(r1, k1).contains(r1[0]));
        assert(with_key(r2, k2).contains(r2[0]));
        let j2 = choose|j: int| 0 <= j < r2.len() && r2[j] == r1[0];
        let j1 = choose|j: int| 0 <= j < r1.len() && r1[j] == r2[0];
        if j2 > 0 {
            assert(!key_lt(pub_key(r2[0]), pub_key(r2[j2])));
        }
        if j1 > 0 {
            assert(!key_lt(pub_key(r1[0]), pub_key(r1[j1])));
        }
        lemma_key_trichotomy(k1, k2);
        assert(k1 == k2);
        let t1 = r1.drop_first();
        let t2 = r2.drop_first();
        assert(r1 =~= seq![r1[0]] + t1);
        assert(r2 =~= seq![r2[0]] + t2);
        assert forall|k: Option<Seq<char>>| #[trigger] with_key(t1, k) == with_key(t2, k) by {
            let pred = |e: Episode| pub_key(e) == k;
            t1.lemma_filter_prepend(r1[0], pred);
            t2.lemma_filter_prepend(r2[0], pred);
            assert(with_key(r1, k) == with_key(r2, k));
            if k == k1 {
                assert(with_key(r1, k) =~= seq![r1[0]] + with_key(t1, k));
                assert(with_key(r2, k) =~= seq![r2[0]] + with_key(t2, k));
                assert(with_key(r1, k)[0] == r1[0]);
                assert(with_key(t1, k) =~= with_key(r1, k).drop_first());
                assert(with_key(t2, k) =~= with_key(r2, k).drop_first());
            } else {
                assert(with_key(r1, k) =~= with_key(t1, k));
                assert(with_key(r2, k) =~= with_key(t2, k));
            }
        }
        assert(with_key(r1, k1) =~= seq![r1[0]] + with_key(t1, k1)) by {
            t1.lemma_filter_prepend(r1[0], |e: Episode| pub_key(e) == k1);
        }
        assert(with_key(r2, k1) =~= seq![r2[0]] + with_key(t2, k1)) by {
            t2.lemma_filter_prepend(r2[0], |e: Episode| pub_key(e) == k1);
        }
        assert(with_key(r1, k1)[0] == r1[0]);
        assert(with_key(r2, k1)[0] == r2[0]);
        assert(r1[0] == r2[0]);
        assert forall|i: int, j: int| 0 <= i < j < t1.len() implies !key_lt(pub_key(#[trigger] t1[i]), pub_key(#[trigger] t1[j])) by {
            assert(t1[i] == r1[i + 1] && t1[j] == r1[j + 1]);
        }
        assert forall|i: int, j: int| 0 <= i < j < t2.len() implies !key_lt(pub_key(#[trigger] t2[i]), pub_key(#[trigger] t2[j])) by {
            assert(t2[i] == r2[i + 1] && t2[j] == r2[j + 1]);
        }
        law_newest_first_order_is_unique(t1, t2);
    }
}

/// Whether any episode carries a publication time.
fn any_dated(episodes: &Vec<Episode>) -> (r: bool)
    ensures
        r == exists|i: int| 0 <= i < episodes@.len() && (#[trigger] episodes@[i]).published_at is Some,
{
    let mut i: usize = 0;
    while i < episodes.len()
        invariant
            i <= episodes@.len(),
            forall|j: int| 0 <= j < i ==> (#[trigger] episodes@[j]).published_at is None,
        decreases episodes.len() - i,
    {
        if episodes[i].published_at.is_some() {
            return true;
        }
        i = i + 1;
    }
    false
}

/// The episodes of `entries`, newest first: entries without an enclosure
/// are dropped; where some episode carries a publication time the episodes
/// are sorted by it (stable), and otherwise feed order is kept.
pub fn episodes_from_entries(entries: &Vec<FeedEntry>) -> (r: Vec<Episode>)
    ensures
        newest_first(r@),
        same_key_groups(r@, episodes_spec(entries@)),
        (forall|i: int| 0 <= i < episodes_spec(entries@).len()
            ==> (#[trigger] episodes_spec(entries@)[i]).published_at is None)
            ==> r@ == episodes_spec(entries@),
{
    let mut out: Vec<Episode> = Vec::new();
    let mut i: usize = 0;
    while i < entries.len()
        invariant
            i <= entries@.len(),
            out@ == episodes_spec(entries@.subrange(0, i as int)),
        decreases entries.len() - i,
    {
        let ghost pre = entries@.subrange(0, i as int);
        let ghost next = entries@.subrange(0, i + 1);
        assert(next.drop_last() =~= pre);
        assert(next.last() == entries@[i as int]);
        match Episode::try_from_entry(&entries[i]) {
            Some(ep) => {
                out.push(ep);
                assert(out@ =~= episodes_spec(next));
            },
            None => {
                assert(out@ =~= episodes_spec(next));
            },
        }
        i = i + 1;
    }
    assert(entries@.subrange(0, entries@.len() as int) =~= entries@);
    let ghost all = out@;
    if any_dated(&out) {
        sort_newest_first(out)
    } else {
        proof {
            assert forall|k: Option<Seq<char>>| #[trigger] with_key(out@, k) == with_key(all, k) by {}
        }
        out
    }
}

/// Turn the outcome of parsing the document at `feed_url` into its episodes:
/// a parse error becomes `InvalidFeed` with the parser's message; otherwise
/// the episodes of the entries, newest first.
pub fn feed_outcome(parsed: Result<Vec<FeedEntry>, String>, feed_url: &str) -> (r: Result<Vec<Episode>, PodcastHelperError>)
    ensures
        match parsed {
            Err(msg) => r matches Err(PodcastHelperError::InvalidFeed { url, message }) && url@ == feed_url@ && message@ == msg@,
            Ok(entries) => r matches Ok(eps) && newest_first(eps@) && same_key_groups(eps@, episodes_spec(entries@))
                && ((forall|i: int| 0 <= i < episodes_spec(entries@).len()
                    ==> (#[trigger] episodes_spec(entries@)[i]).published_at is None)
                    ==> eps@ == episodes_spec(entries@)),
        },
{
    match parsed {
        Err(msg) => Err(PodcastHelperError::InvalidFeed { url: String::from_str(feed_url), message: msg }),
        Ok(entries) => Ok(episodes_from_entries(&entries)),
    }
}

/// Parse feed bytes (any format `feed-rs` reads) into the list of its
/// episodes, newest first. Entries without an audio enclosure are dropped.
/// Each episode's guid is its entry's id: the document's, or one the parser
/// made (from the first link and the title, or at random for an entry with
/// neither id nor link); it is never empty.
pub fn parse_feed(xml_bytes: &[u8], feed_url: &str) -> (r: Result<Vec<Episode>, PodcastHelperError>)
    requires
        feed_bytes_accepted(xml_bytes@),
    ensures
        match feed_contents_of(xml_bytes@) {
            Err(msg) => r matches Err(PodcastHelperError::InvalidFeed { url, message }) && url@ == feed_url@ && message@ == msg,
            Ok(contents) => r matches Ok(eps) && exists|entries: Seq<FeedEntry>| #[trigger] contents_of(entries) == contents
                && (forall|i: int| 0 <= i < entries.len() ==> (#[trigger] entries[i]).id@.len() > 0)
                && newest_first(eps@) && same_key_groups(eps@, episodes_spec(entries))
                && ((forall|i: int| 0 <= i < episodes_spec(entries).len()
                    ==> (#[trigger] episodes_spec(entries)[i]).published_at is None)
                    ==> eps@ == episodes_spec(entries)),
        },
{
    let parsed = parse_feed_document(xml_bytes);
    let ghost entries = match &parsed {
        Ok(v) => v@,
        Err(_) => Seq::empty(),
    };
    let r = feed_outcome(parsed, feed_url);
    proof {
        if feed_contents_of(xml_bytes@) is Ok {
            assert(contents_of(entries) == feed_contents_of(xml_bytes@)->Ok_0);
        }
    }
    r
}

/// Parse feed bytes that have not been checked: bytes that
/// `feed_bytes_accepted` leaves out are refused with `InvalidFeed` (the
/// parser might panic on them); others are parsed by `parse_feed`.
pub fn parse_unchecked_feed(xml_bytes: &[u8], feed_url: &str) -> (r: Result<Vec<Episode>, PodcastHelperError>)
    ensures
        !feed_bytes_accepted(xml_bytes@) ==> (r matches Err(PodcastHelperError::InvalidFeed { url, message })
            && url@ == feed_url@ && message@ == refusal_message()),
        feed_bytes_accepted(xml_bytes@) ==> match feed_contents_of(xml_bytes@) {
            Err(msg) => r matches Err(PodcastHelperError::InvalidFeed { url, message }) && url@ == feed_url@ && message@ == msg,
            Ok(contents) => r matches Ok(eps) && exists|entries: Seq<FeedEntry>| #[trigger] contents_of(entries) == contents
                && (forall|i: int| 0 <= i < entries.len() ==> (#[trigger] entries[i]).id@.len() > 0)
                && newest_first(eps@) && same_key_groups(eps@, episodes_spec(entries))
                && ((forall|i: int| 0 <= i < episodes_spec(entries).len()
                    ==> (#[trigger] episodes_spec(entries)[i]).published_at is None)
                    ==> eps@ == episodes_spec(entries)),
        },
{
    if accepts_feed_bytes(xml_bytes) {
        parse_feed(xml_bytes, feed_url)
    } else {
        Err(PodcastHelperError::InvalidFeed {
            url: String::from_str(feed_url),
            message: String::from_str(
                "feed refused before parsing: it holds a time value, person field, encoding declaration or UTF-16 start that the feed parser does not handle safely",
            ),
        })
    }
}

/// The message with which unchecked feed bytes are refused.
pub open spec fn refusal_message() -> Seq<char> {
    "feed refused before parsing: it holds a time value, person field, encoding declaration or UTF-16 start that the feed parser does not handle safely"@
}

/// The latest episode of a feed's episodes (newest first): the first one,
/// or `EmptyFeed` where there is none.
pub fn latest_episode_of(episodes: Vec<Episode>, feed_url: &str) -> (r: Result<Episode, PodcastHelperError>)
    ensures
        episodes@.len() > 0 ==> r == Ok::<Episode, PodcastHelperError>(episodes@[0]),
        episodes@.len() == 0 ==> (r matches Err(PodcastHelperError::EmptyFeed(u)) && u@ == feed_url@),
{
    let mut episodes = episodes;
    if episodes.len() > 0 {
        Ok(episodes.remove(0))
    } else {
        Err(PodcastHelperError::EmptyFeed(String::from_str(feed_url)))
    }
}

/// The entries that have an enclosure, in order.
pub open spec fn entries_with_enclosure(entries: Seq<FeedEntry>) -> Seq<FeedEntry> {
    entries.filter(|e: FeedEntry| enclosure_spec(e) is Some)
}

/// Every entry that has an enclosure, whatever its size, makes exactly one
/// episode, in entry order; every other entry is dropped. So a feed has as
/// many episodes as entries with an enclosure.
pub proof fn law_every_entry_with_an_enclosure_is_an_episode(entries: Seq<FeedEntry>)
    ensures
        episodes_spec(entries) == entries_with_enclosure(entries).map_values(|e: FeedEntry| episode_of(e)->0),
        episodes_spec(entries).len() == entries_with_enclosure(entries).len(),
    decreases entries.len(),
{
    reveal(Seq::filter);
    if entries.len() > 0 {
        let r = entries.drop_last();
        let e = entries.last();
        law_every_entry_with_an_enclosure_is_an_episode(r);
        let f = |e: FeedEntry| episode_of(e)->0;
        if enclosure_spec(e) is Some {
            assert(entries_with_enclosure(entries) == entries_with_enclosure(r).push(e));
            assert(episodes_spec(entries) == episodes_spec(r) + seq![episode_of(e)->0]);
            assert(entries_with_enclosure(entries).map_values(f) =~= entries_with_enclosure(r).map_values(f).push(f(e)));
        } else {
            assert(entries_with_enclosure(entries) == entries_with_enclosure(r));
            assert(episodes_spec(entries) == episodes_spec(r));
        }
    }
}

/// In a newest-first list, an episode never comes after one whose
/// publication time is earlier: where two times first differ (after a
/// common prefix `p`), the earlier-placed episode has the larger character.
pub proof fn law_later_times_sort_first(
    eps: Seq<Episode>,
    i: int,
    j: int,
    p: Seq<char>,
    x: char,
    y: char,
    s: Seq<char>,
    t: Seq<char>,
)
    requires
        newest_first(eps),
        0 <= i < j < eps.len(),
        pub_key(eps[i]) == Some(p + seq![x] + s),
        pub_key(eps[j]) == Some(p + seq![y] + t),
    ensures
        (y as int) <= (x as int),
{
    if (x as int) < (y as int) {
        law_order_is_decided_by_the_first_difference(p, x, y, s, t);
        assert(key_lt(pub_key(eps[i]), pub_key(eps[j])));
    }
}

} // verus!
