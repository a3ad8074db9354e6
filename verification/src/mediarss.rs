//! The MediaRSS element dispatcher and its leaf handlers.
//!
//! One accumulator per scope: a grouping wrapper creates a fresh
//! [`MediaObject`] and feeds every MediaRSS child through the dispatcher;
//! a content element may recurse back into the dispatcher for its own
//! nested MediaRSS children. Titles and descriptions are strict (their
//! faults abort the enclosing parse); every other field degrades
//! silently.

use vstd::prelude::*;

use crate::duration::MediaDuration;
use crate::mimetext::{mime_text_of, parse_mime_text};
use crate::model::{
    empty_community, empty_media_object, opt_duration_view, opt_string_view, CommunityV,
    ContentV, Image, ImageV, MediaCommunity, MediaContent, MediaCredit, MediaError, MediaErrorV,
    MediaObject, MediaObjectV, MediaText, MediaTextV, MediaThumbnail, Text, TextKind, TextV,
    ThumbnailV,
};
use crate::npt::{npt_clipped, parse_npt};
use crate::numbers::{is_float_text, is_float_text_exec, parse_u32, parse_u64, u32_of_text,
    u64_of_text};
use crate::xml::{Attribute, Child, Element, Fetched, Ns};

verus! {

broadcast use vstd::string::group_string_axioms;

/// The value of the last attribute named `name`.
pub open spec fn last_string_attr(attrs: Seq<Attribute>, name: Seq<char>) -> Option<Seq<char>>
    decreases attrs.len(),
{
    if attrs.len() == 0 {
        None
    } else if attrs.last().name@ == name {
        Some(attrs.last().value@)
    } else {
        last_string_attr(attrs.drop_last(), name)
    }
}

/// The value of the last attribute named `name` that reads as a `u32`.
pub open spec fn last_u32_attr(attrs: Seq<Attribute>, name: Seq<char>) -> Option<u32>
    decreases attrs.len(),
{
    if attrs.len() == 0 {
        None
    } else if attrs.last().name@ == name && u32_of_text(attrs.last().value@) is Some {
        u32_of_text(attrs.last().value@)
    } else {
        last_u32_attr(attrs.drop_last(), name)
    }
}

/// The value of the last attribute named `name` that reads as a `u64`.
pub open spec fn last_u64_attr(attrs: Seq<Attribute>, name: Seq<char>) -> Option<u64>
    decreases attrs.len(),
{
    if attrs.len() == 0 {
        None
    } else if attrs.last().name@ == name && u64_of_text(attrs.last().value@) is Some {
        u64_of_text(attrs.last().value@)
    } else {
        last_u64_attr(attrs.drop_last(), name)
    }
}

/// The duration of the last attribute named `name` that decodes as NPT.
pub open spec fn last_npt_attr(attrs: Seq<Attribute>, name: Seq<char>) -> Option<nat>
    decreases attrs.len(),
{
    if attrs.len() == 0 {
        None
    } else if attrs.last().name@ == name && npt_clipped(attrs.last().value@) is Some {
        npt_clipped(attrs.last().value@)
    } else {
        last_npt_attr(attrs.drop_last(), name)
    }
}

/// The canonical MIME text of the last attribute named `name` that parses
/// as a MIME type.
pub open spec fn last_mime_attr(attrs: Seq<Attribute>, name: Seq<char>) -> Option<Seq<char>>
    decreases attrs.len(),
{
    if attrs.len() == 0 {
        None
    } else if attrs.last().name@ == name && mime_text_of(attrs.last().value@) is Some {
        mime_text_of(attrs.last().value@)
    } else {
        last_mime_attr(attrs.drop_last(), name)
    }
}

/// The value of the last attribute named `name` that is well-formed
/// floating-point text.
pub open spec fn last_float_attr(attrs: Seq<Attribute>, name: Seq<char>) -> Option<Seq<char>>
    decreases attrs.len(),
{
    if attrs.len() == 0 {
        None
    } else if attrs.last().name@ == name && is_float_text(attrs.last().value@) {
        Some(attrs.last().value@)
    } else {
        last_float_attr(attrs.drop_last(), name)
    }
}

/// The value of the first attribute named `name`.
pub open spec fn first_attr(attrs: Seq<Attribute>, name: Seq<char>) -> Option<Seq<char>>
    decreases attrs.len(),
{
    if attrs.len() == 0 {
        None
    } else if attrs.first().name@ == name {
        Some(attrs.first().value@)
    } else {
        first_attr(attrs.drop_first(), name)
    }
}

/// Keeps `prev` unless `o` brings a new value.
pub open spec fn or_opt<T>(o: Option<T>, prev: Option<T>) -> Option<T> {
    match o {
        Some(v) => Some(v),
        None => prev,
    }
}

/// Keeps `prev` unless `o` brings a new value.
pub open spec fn or_u64(o: Option<u64>, prev: u64) -> u64 {
    match o {
        Some(v) => v,
        None => prev,
    }
}

/// What a thumbnail element yields: nothing without a `url` attribute,
/// otherwise an image with best-effort size and time attributes.
pub open spec fn thumbnail_of(e: Element) -> Option<ThumbnailV> {
    let attrs = e.attributes@;
    match last_string_attr(attrs, "url"@) {
        Some(u) => Some(
            ThumbnailV {
                image: ImageV {
                    url: u,
                    width: last_u32_attr(attrs, "width"@),
                    height: last_u32_attr(attrs, "height"@),
                },
                time: last_npt_attr(attrs, "time"@),
            },
        ),
        None => None,
    }
}

/// What a credit element yields: its text, or nothing without text; a
/// walker fault is passed on.
pub open spec fn credit_of(e: Element) -> Result<Option<Seq<char>>, MediaErrorV> {
    match e.flat_text {
        Fetched::Text(t) => Ok(Some(t@)),
        Fetched::Absent => Ok(None),
        Fetched::Fault => Err(MediaErrorV::WalkerFault),
    }
}

/// The MIME class a caption element resolves: `html` only when its last
/// `type` attribute says so, plain text otherwise.
pub open spec fn caption_kind_of(attrs: Seq<Attribute>) -> TextKind {
    match last_string_attr(attrs, "type"@) {
        Some(v) => if v == "html"@ {
            TextKind::Html
        } else {
            TextKind::Plain
        },
        None => TextKind::Plain,
    }
}

/// What a caption (`text`) element yields: nothing without child text,
/// otherwise the text with its MIME class and best-effort time bounds.
pub open spec fn caption_of(e: Element) -> Result<Option<MediaTextV>, MediaErrorV> {
    let attrs = e.attributes@;
    match e.flat_text {
        Fetched::Fault => Err(MediaErrorV::WalkerFault),
        Fetched::Absent => Ok(None),
        Fetched::Text(t) => Ok(
            Some(
                MediaTextV {
                    text: TextV { content: t@, content_type: caption_kind_of(attrs) },
                    start_time: last_npt_attr(attrs, "start"@),
                    end_time: last_npt_attr(attrs, "end"@),
                },
            ),
        ),
    }
}

/// The MIME class of a title or description: absent defaults to plain,
/// anything but `plain` or `html` is a hard fault carrying the value.
pub open spec fn title_kind_of(e: Element) -> Result<TextKind, MediaErrorV> {
    let ty = match first_attr(e.attributes@, "type"@) {
        Some(v) => v,
        None => "plain"@,
    };
    if ty == "plain"@ {
        Ok(TextKind::Plain)
    } else if ty == "html"@ {
        Ok(TextKind::Html)
    } else {
        Err(MediaErrorV::UnknownMimeType(ty))
    }
}

/// What a title or description element yields: its serialized child
/// content with the resolved MIME class; missing content is a hard fault.
pub open spec fn text_of(e: Element) -> Result<TextV, MediaErrorV> {
    match title_kind_of(e) {
        Ok(kind) => match e.serialized {
            Fetched::Fault => Err(MediaErrorV::WalkerFault),
            Fetched::Absent => Err(MediaErrorV::MissingContent),
            Fetched::Text(c) => Ok(TextV { content: c@, content_type: kind }),
        },
        Err(er) => Err(er),
    }
}

/// How one `starRating` child updates the community record.
pub open spec fn star_step(c: CommunityV, attrs: Seq<Attribute>) -> CommunityV {
    CommunityV {
        stars_avg: or_opt(last_float_attr(attrs, "average"@), c.stars_avg),
        stars_count: or_u64(last_u64_attr(attrs, "count"@), c.stars_count),
        stars_min: or_u64(last_u64_attr(attrs, "min"@), c.stars_min),
        stars_max: or_u64(last_u64_attr(attrs, "max"@), c.stars_max),
        ..c
    }
}

/// How one `statistics` child updates the community record.
pub open spec fn stat_step(c: CommunityV, attrs: Seq<Attribute>) -> CommunityV {
    CommunityV {
        stats_views: or_u64(last_u64_attr(attrs, "views"@), c.stats_views),
        stats_favorites: or_u64(last_u64_attr(attrs, "favorites"@), c.stats_favorites),
        ..c
    }
}

/// How one child of a community element updates the community record;
/// children of other namespaces or tags change nothing.
pub open spec fn community_step(c: CommunityV, ch: Element) -> CommunityV {
    if ch.ns == Ns::MediaRss && ch.tag@ == "starRating"@ {
        star_step(c, ch.attributes@)
    } else if ch.ns == Ns::MediaRss && ch.tag@ == "statistics"@ {
        stat_step(c, ch.attributes@)
    } else {
        c
    }
}

/// Folds the children of a community element from `i` on; a child the
/// walker failed to decode is a hard fault.
pub open spec fn community_fold(c: CommunityV, children: Seq<Child>, i: int) -> Result<
    CommunityV,
    MediaErrorV,
>
    decreases children.len() - i,
{
    if i < 0 || i >= children.len() {
        Ok(c)
    } else {
        match children[i] {
            Child::Fault => Err(MediaErrorV::WalkerFault),
            Child::Node(ch) => community_fold(community_step(c, ch), children, i + 1),
        }
    }
}

/// What a community element yields: always a record, all-default when no
/// recognized child appears.
pub open spec fn community_of(e: Element) -> Result<CommunityV, MediaErrorV> {
    community_fold(empty_community(), e.children@, 0)
}

/// The content record a content element's attributes describe.
pub open spec fn content_record_of(attrs: Seq<Attribute>) -> ContentV {
    ContentV {
        url: last_string_attr(attrs, "url"@),
        content_type: last_mime_attr(attrs, "type"@),
        width: last_u32_attr(attrs, "width"@),
        height: last_u32_attr(attrs, "height"@),
    }
}

/// How dispatching one element transforms the accumulator.
pub open spec fn apply_media_element(m: MediaObjectV, e: Element) -> Result<
    MediaObjectV,
    MediaErrorV,
>
    decreases e, 1int, 0int,
{
    if e.ns != Ns::MediaRss {
        Ok(m)
    } else if e.tag@ == "title"@ {
        match text_of(e) {
            Ok(t) => Ok(MediaObjectV { title: Some(t), ..m }),
            Err(er) => Err(er),
        }
    } else if e.tag@ == "content"@ {
        apply_media_content(m, e)
    } else if e.tag@ == "thumbnail"@ {
        Ok(
            match thumbnail_of(e) {
                Some(t) => MediaObjectV { thumbnails: m.thumbnails.push(t), ..m },
                None => m,
            },
        )
    } else if e.tag@ == "description"@ {
        match text_of(e) {
            Ok(t) => Ok(MediaObjectV { description: Some(t), ..m }),
            Err(er) => Err(er),
        }
    } else if e.tag@ == "community"@ {
        match community_of(e) {
            Ok(c) => Ok(MediaObjectV { community: Some(c), ..m }),
            Err(er) => Err(er),
        }
    } else if e.tag@ == "credit"@ {
        match credit_of(e) {
            Ok(Some(t)) => Ok(MediaObjectV { credits: m.credits.push(t), ..m }),
            Ok(None) => Ok(m),
            Err(er) => Err(er),
        }
    } else if e.tag@ == "text"@ {
        match caption_of(e) {
            Ok(Some(t)) => Ok(MediaObjectV { texts: m.texts.push(t), ..m }),
            Ok(None) => Ok(m),
            Err(er) => Err(er),
        }
    } else {
        Ok(m)
    }
}

/// How a content element transforms the accumulator: without a `url`
/// attribute it is dropped whole; with one, its MediaRSS children are
/// dispatched first and then the content record is committed.
pub open spec fn apply_media_content(m: MediaObjectV, e: Element) -> Result<
    MediaObjectV,
    MediaErrorV,
>
    decreases e, 0int, 0int,
{
    let cv = content_record_of(e.attributes@);
    if cv.url is Some {
        match apply_media_children(m, e.children@, 0) {
            Ok(m2) => Ok(MediaObjectV { content: Some(cv), ..m2 }),
            Err(er) => Err(er),
        }
    } else {
        Ok(m)
    }
}

/// Dispatches the MediaRSS children among `children[i..]` in document
/// order; a child the walker failed to decode is a hard fault, a child of
/// another namespace is skipped.
pub open spec fn apply_media_children(m: MediaObjectV, children: Seq<Child>, i: int) -> Result<
    MediaObjectV,
    MediaErrorV,
>
    decreases children, 1int, children.len() - i,
{
    if i < 0 || i >= children.len() {
        Ok(m)
    } else {
        match children[i] {
            Child::Fault => Err(MediaErrorV::WalkerFault),
            Child::Node(ch) => if ch.ns == Ns::MediaRss {
                match apply_media_element(m, ch) {
                    Ok(m2) => apply_media_children(m2, children, i + 1),
                    Err(er) => Err(er),
                }
            } else {
                apply_media_children(m, children, i + 1)
            },
        }
    }
}

/// What a grouping wrapper yields: a fresh accumulator fed with every
/// MediaRSS child.
pub open spec fn group_of(e: Element) -> Result<MediaObjectV, MediaErrorV> {
    apply_media_children(empty_media_object(), e.children@, 0)
}

/// The attribute names a thumbnail element reads are pairwise distinct.
proof fn lemma_thumb_attr_names()
    ensures
        "url"@ != "width"@ && "url"@ != "height"@ && "url"@ != "time"@,
        "width"@ != "height"@ && "width"@ != "time"@,
        "height"@ != "time"@,
{
    reveal_strlit("url");
    reveal_strlit("width");
    reveal_strlit("height");
    reveal_strlit("time");
    assert("url"@.len() == 3);
    assert("width"@.len() == 5);
    assert("height"@.len() == 6);
    assert("time"@.len() == 4);
}

/// The attribute names a content element reads are pairwise distinct.
proof fn lemma_content_attr_names()
    ensures
        "url"@ != "type"@ && "url"@ != "width"@ && "url"@ != "height"@,
        "type"@ != "width"@ && "type"@ != "height"@,
        "width"@ != "height"@,
{
    reveal_strlit("url");
    reveal_strlit("type");
    reveal_strlit("width");
    reveal_strlit("height");
    assert("url"@.len() == 3);
    assert("type"@.len() == 4);
    assert("width"@.len() == 5);
    assert("height"@.len() == 6);
}

/// The attribute names a community element reads are pairwise distinct.
proof fn lemma_community_attr_names()
    ensures
        "average"@ != "count"@ && "average"@ != "min"@ && "average"@ != "max"@,
        "count"@ != "min"@ && "count"@ != "max"@,
        "min"@ != "max"@,
        "views"@ != "favorites"@,
        "starRating"@ != "statistics"@,
{
    reveal_strlit("average");
    reveal_strlit("count");
    reveal_strlit("min");
    reveal_strlit("max");
    reveal_strlit("views");
    reveal_strlit("favorites");
    reveal_strlit("starRating");
    reveal_strlit("statistics");
    assert("average"@.len() == 7);
    assert("count"@.len() == 5);
    assert("min"@.len() == 3);
    assert("max"@.len() == 3);
    assert("min"@[1] == 'i');
    assert("max"@[1] == 'a');
    assert("views"@.len() == 5);
    assert("favorites"@.len() == 9);
    assert("starRating"@.len() == 10);
    assert("statistics"@.len() == 10);
    assert("starRating"@[3] == 'r');
    assert("statistics"@[3] == 't');
}

/// The attribute names a caption element reads are pairwise distinct.
proof fn lemma_caption_attr_names()
    ensures
        "start"@ != "end"@ && "start"@ != "type"@,
        "end"@ != "type"@,
{
    reveal_strlit("start");
    reveal_strlit("end");
    reveal_strlit("type");
    assert("start"@.len() == 5);
    assert("end"@.len() == 3);
    assert("type"@.len() == 4);
}

/// The seven MediaRSS tags the dispatcher recognizes are pairwise
/// distinct.
pub proof fn lemma_media_tags()
    ensures
        "title"@ != "content"@ && "title"@ != "thumbnail"@ && "title"@ != "description"@
            && "title"@ != "community"@ && "title"@ != "credit"@ && "title"@ != "text"@,
        "content"@ != "thumbnail"@ && "content"@ != "description"@ && "content"@ != "community"@
            && "content"@ != "credit"@ && "content"@ != "text"@,
        "thumbnail"@ != "description"@ && "thumbnail"@ != "community"@ && "thumbnail"@
            != "credit"@ && "thumbnail"@ != "text"@,
        "description"@ != "community"@ && "description"@ != "credit"@ && "description"@
            != "text"@,
        "community"@ != "credit"@ && "community"@ != "text"@,
        "credit"@ != "text"@,
{
    reveal_strlit("title");
    reveal_strlit("content");
    reveal_strlit("thumbnail");
    reveal_strlit("description");
    reveal_strlit("community");
    reveal_strlit("credit");
    reveal_strlit("text");
    assert("title"@.len() == 5);
    assert("content"@.len() == 7);
    assert("thumbnail"@.len() == 9);
    assert("description"@.len() == 11);
    assert("community"@.len() == 9);
    assert("credit"@.len() == 6);
    assert("text"@.len() == 4);
    assert("thumbnail"@[0] == 't');
    assert("community"@[0] == 'c');
}

/// Finds the value of the first attribute named `name`.
fn find_first_attr(attrs: &Vec<Attribute>, name: &str) -> (r: Option<String>)
    ensures
        match r {
            Some(v) => first_attr(attrs@, name@) == Some(v@),
            None => first_attr(attrs@, name@) is None,
        },
{
    let n = attrs.len();
    let mut i: usize = 0;
    proof {
        assert(attrs@.skip(0) =~= attrs@);
    }
    while i < n
        invariant
            i <= n,
            n == attrs@.len(),
            first_attr(attrs@, name@) == first_attr(attrs@.skip(i as int), name@),
        decreases n - i,
    {
        if attrs[i].name == name.to_owned() {
            proof {
                assert(attrs@.skip(i as int).first() == attrs@[i as int]);
            }
            return Some(attrs[i].value.clone());
        }
        proof {
            assert(attrs@.skip(i as int).drop_first() =~= attrs@.skip(i + 1 as int));
        }
        i = i + 1;
    }
    None
}

/// Handles a title or description element: strict, per [`text_of`].
pub fn handle_text(element: &Element) -> (r: Result<Option<Text>, MediaError>)
    ensures
        match text_of(*element) {
            Ok(tv) => r matches Ok(Some(t)) && t@ == tv,
            Err(ev) => r matches Err(er) && er@ == ev,
        },
{
    let ty = find_first_attr(&element.attributes, "type");
    let kind: TextKind = match &ty {
        Some(v) => {
            if *v == "plain".to_owned() {
                TextKind::Plain
            } else if *v == "html".to_owned() {
                TextKind::Html
            } else {
                return Err(MediaError::UnknownMimeType(v.clone()));
            }
        },
        None => TextKind::Plain,
    };
    match &element.serialized {
        Fetched::Fault => Err(MediaError::WalkerFault),
        Fetched::Absent => Err(MediaError::MissingContent),
        Fetched::Text(c) => Ok(Some(Text { content: c.clone(), content_type: kind })),
    }
}

/// Handles a credit element, per [`credit_of`].
pub fn handle_media_credit(element: &Element) -> (r: Result<Option<MediaCredit>, MediaError>)
    ensures
        match credit_of(*element) {
            Ok(Some(t)) => r matches Ok(Some(c)) && c.text@ == t,
            Ok(None) => r matches Ok(o) && o is None,
            Err(ev) => r matches Err(er) && er@ == ev,
        },
{
    match &element.flat_text {
        Fetched::Text(t) => Ok(Some(MediaCredit { text: t.clone() })),
        Fetched::Absent => Ok(None),
        Fetched::Fault => Err(MediaError::WalkerFault),
    }
}

/// Handles a thumbnail element, per [`thumbnail_of`]; it never faults.
pub fn handle_media_thumbnail(element: &Element) -> (r: Result<Option<MediaThumbnail>, MediaError>)
    ensures
        match thumbnail_of(*element) {
            Some(tv) => r matches Ok(Some(t)) && t@ == tv,
            None => r matches Ok(o) && o is None,
        },
{
    proof {
        reveal_strlit("url");
        reveal_strlit("width");
        reveal_strlit("height");
        reveal_strlit("time");
    }
    let attrs = &element.attributes;
    let n = attrs.len();
    let mut url: Option<String> = None;
    let mut width: Option<u32> = None;
    let mut height: Option<u32> = None;
    let mut time: Option<MediaDuration> = None;
    let mut i: usize = 0;
    while i < n
        invariant
            i <= n,
            n == attrs@.len(),
            opt_string_view(url) == last_string_attr(attrs@.subrange(0, i as int), "url"@),
            width == last_u32_attr(attrs@.subrange(0, i as int), "width"@),
            height == last_u32_attr(attrs@.subrange(0, i as int), "height"@),
            opt_duration_view(time) == last_npt_attr(attrs@.subrange(0, i as int), "time"@),
        decreases n - i,
    {
        proof {
            lemma_thumb_attr_names();
            let pre = attrs@.subrange(0, i as int);
            let pre1 = attrs@.subrange(0, i + 1 as int);
            assert(pre1.drop_last() =~= pre);
            assert(pre1.last() == attrs@[i as int]);
        }
        let a = &attrs[i];
        if a.name == "url".to_owned() {
            url = Some(a.value.clone());
        } else if a.name == "width".to_owned() {
            match parse_u32(a.value.as_str()) {
                Some(v) => width = Some(v),
                None => (),
            }
        } else if a.name == "height".to_owned() {
            match parse_u32(a.value.as_str()) {
                Some(v) => height = Some(v),
                None => (),
            }
        } else if a.name == "time".to_owned() {
            match parse_npt(a.value.as_str()) {
                Some(d) => time = Some(d),
                None => (),
            }
        }
        i = i + 1;
    }
    proof {
        assert(attrs@.subrange(0, n as int) =~= attrs@);
    }
    match url {
        Some(u) => {
            let t = MediaThumbnail { image: Image { url: u, width, height }, time };
            proof {
                assert(t@ =~= thumbnail_of(*element)->0);
            }
            Ok(Some(t))
        },
        None => Ok(None),
    }
}

/// Handles a caption (`text`) element, per [`caption_of`].
pub fn handle_media_text(element: &Element) -> (r: Result<Option<MediaText>, MediaError>)
    ensures
        match caption_of(*element) {
            Ok(Some(tv)) => r matches Ok(Some(t)) && t@ == tv,
            Ok(None) => r matches Ok(o) && o is None,
            Err(ev) => r matches Err(er) && er@ == ev,
        },
{
    let attrs = &element.attributes;
    let n = attrs.len();
    let mut start: Option<MediaDuration> = None;
    let mut end: Option<MediaDuration> = None;
    let mut tyv: Option<String> = None;
    let mut i: usize = 0;
    while i < n
        invariant
            i <= n,
            n == attrs@.len(),
            opt_duration_view(start) == last_npt_attr(attrs@.subrange(0, i as int), "start"@),
            opt_duration_view(end) == last_npt_attr(attrs@.subrange(0, i as int), "end"@),
            opt_string_view(tyv) == last_string_attr(attrs@.subrange(0, i as int), "type"@),
        decreases n - i,
    {
        proof {
            lemma_caption_attr_names();
            let pre = attrs@.subrange(0, i as int);
            let pre1 = attrs@.subrange(0, i + 1 as int);
            assert(pre1.drop_last() =~= pre);
            assert(pre1.last() == attrs@[i as int]);
        }
        let a = &attrs[i];
        if a.name == "start".to_owned() {
            match parse_npt(a.value.as_str()) {
                Some(d) => start = Some(d),
                None => (),
            }
        } else if a.name == "end".to_owned() {
            match parse_npt(a.value.as_str()) {
                Some(d) => end = Some(d),
                None => (),
            }
        } else if a.name == "type".to_owned() {
            tyv = Some(a.value.clone());
        }
        i = i + 1;
    }
    proof {
        assert(attrs@.subrange(0, n as int) =~= attrs@);
    }
    let kind: TextKind = match &tyv {
        Some(v) => if *v == "html".to_owned() {
            TextKind::Html
        } else {
            TextKind::Plain
        },
        None => TextKind::Plain,
    };
    match &element.flat_text {
        Fetched::Fault => Err(MediaError::WalkerFault),
        Fetched::Absent => Ok(None),
        Fetched::Text(t) => {
            let mt = MediaText {
                text: Text { content: t.clone(), content_type: kind },
                start_time: start,
                end_time: end,
            };
            proof {
                match caption_of(*element) {
                    Ok(Some(tv)) => {
                        assert(mt@ =~= tv);
                    },
                    _ => {
                        assert(false);
                    },
                }
            }
            Ok(Some(mt))
        },
    }
}

/// Handles a community element, per [`community_of`]; it always yields a
/// record, unless a child the walker failed to decode is met.
pub fn handle_media_community(element: &Element) -> (r: Result<Option<MediaCommunity>, MediaError>)
    ensures
        match community_of(*element) {
            Ok(cv) => r matches Ok(Some(c)) && c@ == cv,
            Err(ev) => r matches Err(er) && er@ == ev,
        },
{
    let mut community = MediaCommunity::new();
    let children = &element.children;
    let n = children.len();
    let mut i: usize = 0;
    while i < n
        invariant
            i <= n,
            n == children@.len(),
            children@ == element.children@,
            community_of(*element) == community_fold(community@, element.children@, i as int),
        decreases n - i,
    {
        match &children[i] {
            Child::Fault => {
                return Err(MediaError::WalkerFault);
            },
            Child::Node(ch) => {
                if ch.ns == Ns::MediaRss && ch.tag == "starRating".to_owned() {
                    let ghost c0 = community@;
                    let cattrs = &ch.attributes;
                    let an = cattrs.len();
                    let mut j: usize = 0;
                    while j < an
                        invariant
                            j <= an,
                            an == cattrs@.len(),
                            cattrs@ == ch.attributes@,
                            community@ == star_step(c0, cattrs@.subrange(0, j as int)),
                        decreases an - j,
                    {
                        proof {
                            lemma_community_attr_names();
                            let pre = cattrs@.subrange(0, j as int);
                            let pre1 = cattrs@.subrange(0, j + 1 as int);
                            assert(pre1.drop_last() =~= pre);
                            assert(pre1.last() == cattrs@[j as int]);
                        }
                        let a = &cattrs[j];
                        if a.name == "average".to_owned() {
                            if is_float_text_exec(a.value.as_str()) {
                                community.stars_avg = Some(a.value.clone());
                            }
                        } else if a.name == "count".to_owned() {
                            match parse_u64(a.value.as_str()) {
                                Some(v) => community.stars_count = v,
                                None => (),
                            }
                        } else if a.name == "min".to_owned() {
                            match parse_u64(a.value.as_str()) {
                                Some(v) => community.stars_min = v,
                                None => (),
                            }
                        } else if a.name == "max".to_owned() {
                            match parse_u64(a.value.as_str()) {
                                Some(v) => community.stars_max = v,
                                None => (),
                            }
                        }
                        proof {
                            assert(community@ =~= star_step(
                                c0,
                                cattrs@.subrange(0, j + 1 as int),
                            ));
                        }
                        j = j + 1;
                    }
                    proof {
                        assert(cattrs@.subrange(0, an as int) =~= cattrs@);
                        assert(community@ =~= community_step(c0, *ch));
                    }
                } else if ch.ns == Ns::MediaRss && ch.tag == "statistics".to_owned() {
                    let ghost c0 = community@;
                    let cattrs = &ch.attributes;
                    let an = cattrs.len();
                    let mut j: usize = 0;
                    while j < an
                        invariant
                            j <= an,
                            an == cattrs@.len(),
                            cattrs@ == ch.attributes@,
                            community@ == stat_step(c0, cattrs@.subrange(0, j as int)),
                        decreases an - j,
                    {
                        proof {
                            lemma_community_attr_names();
                            let pre = cattrs@.subrange(0, j as int);
                            let pre1 = cattrs@.subrange(0, j + 1 as int);
                            assert(pre1.drop_last() =~= pre);
                            assert(pre1.last() == cattrs@[j as int]);
                        }
                        let a = &cattrs[j];
                        if a.name == "views".to_owned() {
                            match parse_u64(a.value.as_str()) {
                                Some(v) => community.stats_views = v,
                                None => (),
                            }
                        } else if a.name == "favorites".to_owned() {
                            match parse_u64(a.value.as_str()) {
                                Some(v) => community.stats_favorites = v,
                                None => (),
                            }
                        }
                        proof {
                            assert(community@ =~= stat_step(
                                c0,
                                cattrs@.subrange(0, j + 1 as int),
                            ));
                        }
                        j = j + 1;
                    }
                    proof {
                        lemma_community_attr_names();
                        assert(cattrs@.subrange(0, an as int) =~= cattrs@);
                        assert(community@ =~= community_step(c0, *ch));
                    }
                } else {
                    proof {
                        assert(community_step(community@, *ch) == community@);
                    }
                }
            },
        }
        i = i + 1;
    }
    Ok(Some(community))
}

/// Handles a content element: reads its attributes and, when a `url` is
/// present, dispatches its nested MediaRSS children and commits the
/// record, per [`apply_media_content`].
pub fn handle_media_content(element: &Element, media_obj: &mut MediaObject) -> (r: Result<
    (),
    MediaError,
>)
    ensures
        match apply_media_content(old(media_obj)@, *element) {
            Ok(mv) => r is Ok && final(media_obj)@ == mv,
            Err(ev) => r matches Err(er) && er@ == ev,
        },
    decreases *element, 0int, 0int,
{
    let attrs = &element.attributes;
    let n = attrs.len();
    let mut url: Option<String> = None;
    let mut ctype: Option<String> = None;
    let mut width: Option<u32> = None;
    let mut height: Option<u32> = None;
    let mut i: usize = 0;
    while i < n
        invariant
            i <= n,
            n == attrs@.len(),
            attrs@ == element.attributes@,
            media_obj == old(media_obj),
            opt_string_view(url) == last_string_attr(attrs@.subrange(0, i as int), "url"@),
            opt_string_view(ctype) == last_mime_attr(attrs@.subrange(0, i as int), "type"@),
            width == last_u32_attr(attrs@.subrange(0, i as int), "width"@),
            height == last_u32_attr(attrs@.subrange(0, i as int), "height"@),
        decreases n - i,
    {
        proof {
            lemma_content_attr_names();
            let pre = attrs@.subrange(0, i as int);
            let pre1 = attrs@.subrange(0, i + 1 as int);
            assert(pre1.drop_last() =~= pre);
            assert(pre1.last() == attrs@[i as int]);
        }
        let a = &attrs[i];
        if a.name == "url".to_owned() {
            url = Some(a.value.clone());
        } else if a.name == "type".to_owned() {
            match parse_mime_text(a.value.as_str()) {
                Some(t) => ctype = Some(t),
                None => (),
            }
        } else if a.name == "width".to_owned() {
            match parse_u32(a.value.as_str()) {
                Some(v) => width = Some(v),
                None => (),
            }
        } else if a.name == "height".to_owned() {
            match parse_u32(a.value.as_str()) {
                Some(v) => height = Some(v),
                None => (),
            }
        }
        i = i + 1;
    }
    proof {
        assert(attrs@.subrange(0, n as int) =~= attrs@);
    }
    let ghost cv = content_record_of(element.attributes@);
    match url {
        None => Ok(()),
        Some(u) => {
            let ghost m0 = media_obj@;
            let children = &element.children;
            let cn = children.len();
            let mut k: usize = 0;
            while k < cn
                invariant
                    k <= cn,
                    cn == children@.len(),
                    children@ == element.children@,
                    m0 == old(media_obj)@,
                    content_record_of(element.attributes@).url is Some,
                    apply_media_children(m0, element.children@, 0) == apply_media_children(
                        media_obj@,
                        element.children@,
                        k as int,
                    ),
                decreases cn - k,
            {
                match &children[k] {
                    Child::Fault => {
                        return Err(MediaError::WalkerFault);
                    },
                    Child::Node(ch) => {
                        if ch.ns == Ns::MediaRss {
                            match handle_media_element(ch, media_obj) {
                                Ok(_) => (),
                                Err(e) => {
                                    return Err(e);
                                },
                            }
                        }
                    },
                }
                k = k + 1;
            }
            let ghost m2 = media_obj@;
            let mc = MediaContent { url: Some(u), content_type: ctype, width, height };
            proof {
                assert(mc@ =~= cv);
            }
            media_obj.content = Some(mc);
            proof {
                assert(media_obj@ =~= MediaObjectV { content: Some(cv), ..m2 });
            }
            Ok(())
        },
    }
}

/// Dispatches one element into the accumulator by its namespace and tag,
/// per [`apply_media_element`]; unrecognized elements are ignored.
pub fn handle_media_element(element: &Element, media_obj: &mut MediaObject) -> (r: Result<
    (),
    MediaError,
>)
    ensures
        match apply_media_element(old(media_obj)@, *element) {
            Ok(mv) => r is Ok && final(media_obj)@ == mv,
            Err(ev) => r matches Err(er) && er@ == ev,
        },
    decreases *element, 1int, 0int,
{
    if !(element.ns == Ns::MediaRss) {
        return Ok(());
    }
    if element.tag == "title".to_owned() {
        match handle_text(element) {
            Ok(t) => {
                media_obj.title = t;
                proof {
                    match apply_media_element(old(media_obj)@, *element) {
                        Ok(mv) => {
                            assert(media_obj@ =~= mv);
                        },
                        Err(_) => {
                            assert(false);
                        },
                    }
                }
                Ok(())
            },
            Err(e) => Err(e),
        }
    } else if element.tag == "content".to_owned() {
        handle_media_content(element, media_obj)
    } else if element.tag == "thumbnail".to_owned() {
        match handle_media_thumbnail(element) {
            Ok(Some(t)) => {
                media_obj.thumbnails.push(t);
                proof {
                    match apply_media_element(old(media_obj)@, *element) {
                        Ok(mv) => {
                            assert(media_obj@ =~= mv);
                        },
                        Err(_) => {
                            assert(false);
                        },
                    }
                }
                Ok(())
            },
            Ok(None) => Ok(()),
            Err(e) => Err(e),
        }
    } else if element.tag == "description".to_owned() {
        match handle_text(element) {
            Ok(t) => {
                media_obj.description = t;
                proof {
                    match apply_media_element(old(media_obj)@, *element) {
                        Ok(mv) => {
                            assert(media_obj@ =~= mv);
                        },
                        Err(_) => {
                            assert(false);
                        },
                    }
                }
                Ok(())
            },
            Err(e) => Err(e),
        }
    } else if element.tag == "community".to_owned() {
        match handle_media_community(element) {
            Ok(c) => {
                media_obj.community = c;
                proof {
                    match apply_media_element(old(media_obj)@, *element) {
                        Ok(mv) => {
                            assert(media_obj@ =~= mv);
                        },
                        Err(_) => {
                            assert(false);
                        },
                    }
                }
                Ok(())
            },
            Err(e) => Err(e),
        }
    } else if element.tag == "credit".to_owned() {
        match handle_media_credit(element) {
            Ok(Some(c)) => {
                media_obj.credits.push(c);
                proof {
                    match apply_media_element(old(media_obj)@, *element) {
                        Ok(mv) => {
                            assert(media_obj@ =~= mv);
                        },
                        Err(_) => {
                            assert(false);
                        },
                    }
                }
                Ok(())
            },
            Ok(None) => Ok(()),
            Err(e) => Err(e),
        }
    } else if element.tag == "text".to_owned() {
        match handle_media_text(element) {
            Ok(Some(t)) => {
                media_obj.texts.push(t);
                proof {
                    match apply_media_element(old(media_obj)@, *element) {
                        Ok(mv) => {
                            assert(media_obj@ =~= mv);
                        },
                        Err(_) => {
                            assert(false);
                        },
                    }
                }
                Ok(())
            },
            Ok(None) => Ok(()),
            Err(e) => Err(e),
        }
    } else {
        Ok(())
    }
}

/// Handles a grouping wrapper: a fresh accumulator fed with every
/// MediaRSS child, per [`group_of`]; an empty group yields an all-default
/// object.
pub fn handle_media_group(element: &Element) -> (r: Result<Option<MediaObject>, MediaError>)
    ensures
        match group_of(*element) {
            Ok(mv) => r matches Ok(Some(obj)) && obj@ == mv,
            Err(ev) => r matches Err(er) && er@ == ev,
        },
{
    let mut media_obj = MediaObject::new();
    let children = &element.children;
    let n = children.len();
    let mut i: usize = 0;
    while i < n
        invariant
            i <= n,
            n == children@.len(),
            children@ == element.children@,
            apply_media_children(empty_media_object(), element.children@, 0)
                == apply_media_children(media_obj@, element.children@, i as int),
        decreases n - i,
    {
        match &children[i] {
            Child::Fault => {
                return Err(MediaError::WalkerFault);
            },
            Child::Node(ch) => {
                if ch.ns == Ns::MediaRss {
                    match handle_media_element(ch, &mut media_obj) {
                        Ok(_) => (),
                        Err(e) => {
                            return Err(e);
                        },
                    }
                }
            },
        }
        i = i + 1;
    }
    Ok(Some(media_obj))
}

/// No attribute of `attrs` is named `name`, so no value is read for it.
proof fn lemma_last_string_attr_absent(attrs: Seq<Attribute>, name: Seq<char>)
    requires
        forall|i: int| 0 <= i < attrs.len() ==> (#[trigger] attrs[i]).name@ != name,
    ensures
        last_string_attr(attrs, name) is None,
    decreases attrs.len(),
{
    if attrs.len() > 0 {
        assert(attrs.last() == attrs[attrs.len() - 1]);
        assert(forall|i: int|
            0 <= i < attrs.drop_last().len() ==> (#[trigger] attrs.drop_last()[i]).name@ != name);
        lemma_last_string_attr_absent(attrs.drop_last(), name);
    }
}

/// A content element without a `url` attribute commits nothing: the
/// accumulator comes back unchanged, whatever its other attributes and
/// children hold, and no fault is raised.
pub proof fn lemma_content_without_url(m: MediaObjectV, e: Element)
    requires
        forall|i: int| 0 <= i < e.attributes@.len() ==> (#[trigger] e.attributes@[i]).name@
            != "url"@,
    ensures
        apply_media_content(m, e) == Ok::<MediaObjectV, MediaErrorV>(m),
{
    lemma_last_string_attr_absent(e.attributes@, "url"@);
}

/// A thumbnail element without a `url` attribute yields no record, and
/// dispatching it appends nothing: the accumulator comes back unchanged.
pub proof fn lemma_thumbnail_without_url(m: MediaObjectV, e: Element)
    requires
        e.ns == Ns::MediaRss,
        e.tag@ == "thumbnail"@,
        forall|i: int| 0 <= i < e.attributes@.len() ==> (#[trigger] e.attributes@[i]).name@
            != "url"@,
    ensures
        thumbnail_of(e) is None,
        apply_media_element(m, e) == Ok::<MediaObjectV, MediaErrorV>(m),
{
    lemma_media_tags();
    lemma_last_string_attr_absent(e.attributes@, "url"@);
}

/// An element of another namespace, or with a tag the vocabulary does not
/// know, is ignored: no fault, and the accumulator comes back unchanged.
pub proof fn lemma_unknown_element_ignored(m: MediaObjectV, e: Element)
    requires
        is_unrecognized(e),
    ensures
        apply_media_element(m, e) == Ok::<MediaObjectV, MediaErrorV>(m),
{
}

/// An element is unrecognized when it is of another namespace or carries
/// a tag the vocabulary does not know.
pub open spec fn is_unrecognized(e: Element) -> bool {
    e.ns != Ns::MediaRss || (e.tag@ != "title"@ && e.tag@ != "content"@ && e.tag@ != "thumbnail"@
        && e.tag@ != "description"@ && e.tag@ != "community"@ && e.tag@ != "credit"@ && e.tag@
        != "text"@)
}

/// Dispatching children is blind to a shift by one position past an
/// inserted child: the suffixes coincide.
proof fn lemma_children_suffix_shift(
    m: MediaObjectV,
    children: Seq<Child>,
    k: int,
    c: Child,
    j: int,
)
    requires
        0 <= k <= children.len(),
        k <= j <= children.len(),
    ensures
        apply_media_children(m, children.insert(k, c), j + 1) == apply_media_children(
            m,
            children,
            j,
        ),
    decreases children.len() - j,
{
    let ins = children.insert(k, c);
    if j >= children.len() {
    } else {
        assert(ins[j + 1] == children[j]);
        match children[j] {
            Child::Fault => {},
            Child::Node(ch) => {
                if ch.ns == Ns::MediaRss {
                    match apply_media_element(m, ch) {
                        Ok(m2) => {
                            lemma_children_suffix_shift(m2, children, k, c, j + 1);
                        },
                        Err(_) => {},
                    }
                } else {
                    lemma_children_suffix_shift(m, children, k, c, j + 1);
                }
            },
        }
    }
}

/// Inserting an unrecognized child anywhere among the children of a
/// scope leaves the whole dispatch unchanged: it raises no fault and
/// alters no field derived from its siblings.
pub proof fn lemma_unrecognized_child_changes_nothing(
    m: MediaObjectV,
    children: Seq<Child>,
    k: int,
    ch: Element,
    i: int,
)
    requires
        0 <= i <= k <= children.len(),
        is_unrecognized(ch),
    ensures
        apply_media_children(m, children.insert(k, Child::Node(ch)), i) == apply_media_children(
            m,
            children,
            i,
        ),
    decreases k - i,
{
    let ins = children.insert(k, Child::Node(ch));
    if i == k {
        lemma_unknown_element_ignored(m, ch);
        assert(ins[k] == Child::Node(ch));
        lemma_children_suffix_shift(m, children, k, Child::Node(ch), k);
    } else {
        assert(ins[i] == children[i]);
        match children[i] {
            Child::Fault => {},
            Child::Node(c) => {
                if c.ns == Ns::MediaRss {
                    match apply_media_element(m, c) {
                        Ok(m2) => {
                            lemma_unrecognized_child_changes_nothing(m2, children, k, ch, i + 1);
                        },
                        Err(_) => {},
                    }
                } else {
                    lemma_unrecognized_child_changes_nothing(m, children, k, ch, i + 1);
                }
            },
        }
    }
}

/// A community child that is neither `starRating` nor `statistics`
/// changes nothing in the community record.
pub proof fn lemma_community_ignores_unknown(c: CommunityV, ch: Element)
    requires
        ch.ns != Ns::MediaRss || (ch.tag@ != "starRating"@ && ch.tag@ != "statistics"@),
    ensures
        community_step(c, ch) == c,
{
}

} // verus!
