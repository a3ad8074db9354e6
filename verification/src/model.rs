//! The normalized rich-media records that decoding produces, their
//! mathematical models, and the fault type of the strict handlers.

use vstd::prelude::*;

use crate::duration::MediaDuration;

verus! {

/// The two narrative MIME classes a text record can carry.
#[derive(Clone, Copy, PartialEq, Eq, Structural, Debug)]
pub enum TextKind {
    Plain,
    Html,
}

/// A hard fault: it aborts the whole enclosing parse.
#[derive(Clone, PartialEq, Eq, Debug)]
pub enum MediaError {
    /// A title or description carried a `type` other than plain or html.
    UnknownMimeType(String),
    /// A title or description had no child content.
    MissingContent,
    /// The element-tree walker failed to decode part of the tree.
    WalkerFault,
}

/// Model of [`MediaError`].
#[verifier::ext_equal]
pub enum MediaErrorV {
    UnknownMimeType(Seq<char>),
    MissingContent,
    WalkerFault,
}

impl View for MediaError {
    type V = MediaErrorV;

    open spec fn view(&self) -> MediaErrorV {
        match self {
            MediaError::UnknownMimeType(t) => MediaErrorV::UnknownMimeType(t@),
            MediaError::MissingContent => MediaErrorV::MissingContent,
            MediaError::WalkerFault => MediaErrorV::WalkerFault,
        }
    }
}

/// Narrative text together with its MIME class.
#[derive(Clone, PartialEq, Eq, Debug)]
pub struct Text {
    pub content: String,
    pub content_type: TextKind,
}

/// Model of [`Text`].
#[verifier::ext_equal]
pub struct TextV {
    pub content: Seq<char>,
    pub content_type: TextKind,
}

impl View for Text {
    type V = TextV;

    open spec fn view(&self) -> TextV {
        TextV { content: self.content@, content_type: self.content_type }
    }
}

/// An image: its location and optional pixel size.
#[derive(Clone, PartialEq, Eq, Debug)]
pub struct Image {
    pub url: String,
    pub width: Option<u32>,
    pub height: Option<u32>,
}

/// Model of [`Image`].
#[verifier::ext_equal]
pub struct ImageV {
    pub url: Seq<char>,
    pub width: Option<u32>,
    pub height: Option<u32>,
}

impl View for Image {
    type V = ImageV;

    open spec fn view(&self) -> ImageV {
        ImageV { url: self.url@, width: self.width, height: self.height }
    }
}

/// A thumbnail: an image plus an optional time offset.
#[derive(Clone, PartialEq, Eq, Debug)]
pub struct MediaThumbnail {
    pub image: Image,
    pub time: Option<MediaDuration>,
}

/// Model of [`MediaThumbnail`]; the time is in milliseconds.
#[verifier::ext_equal]
pub struct ThumbnailV {
    pub image: ImageV,
    pub time: Option<nat>,
}

/// The model of an optional duration: its length in milliseconds.
pub open spec fn opt_duration_view(o: Option<MediaDuration>) -> Option<nat> {
    match o {
        Some(d) => Some(d@),
        None => None,
    }
}

impl View for MediaThumbnail {
    type V = ThumbnailV;

    open spec fn view(&self) -> ThumbnailV {
        ThumbnailV { image: self.image@, time: opt_duration_view(self.time) }
    }
}

/// A content descriptor. `content_type` holds the canonical text of the
/// MIME type, as the MIME parser renders it.
#[derive(Clone, PartialEq, Eq, Debug)]
pub struct MediaContent {
    pub url: Option<String>,
    pub content_type: Option<String>,
    pub width: Option<u32>,
    pub height: Option<u32>,
}

/// Model of [`MediaContent`].
#[verifier::ext_equal]
pub struct ContentV {
    pub url: Option<Seq<char>>,
    pub content_type: Option<Seq<char>>,
    pub width: Option<u32>,
    pub height: Option<u32>,
}

/// The model of an optional string.
pub open spec fn opt_string_view(o: Option<String>) -> Option<Seq<char>> {
    match o {
        Some(s) => Some(s@),
        None => None,
    }
}

impl View for MediaContent {
    type V = ContentV;

    open spec fn view(&self) -> ContentV {
        ContentV {
            url: opt_string_view(self.url),
            content_type: opt_string_view(self.content_type),
            width: self.width,
            height: self.height,
        }
    }
}

/// Community feedback. `stars_avg` keeps the decimal text of the average
/// rating whenever it is well-formed floating-point text; turning it into
/// a machine float is left to the caller. The other fields are
/// best-effort counters that default to zero.
#[derive(Clone, PartialEq, Eq, Debug)]
pub struct MediaCommunity {
    pub stars_avg: Option<String>,
    pub stars_count: u64,
    pub stars_min: u64,
    pub stars_max: u64,
    pub stats_views: u64,
    pub stats_favorites: u64,
}

/// Model of [`MediaCommunity`].
#[verifier::ext_equal]
pub struct CommunityV {
    pub stars_avg: Option<Seq<char>>,
    pub stars_count: u64,
    pub stars_min: u64,
    pub stars_max: u64,
    pub stats_views: u64,
    pub stats_favorites: u64,
}

impl View for MediaCommunity {
    type V = CommunityV;

    open spec fn view(&self) -> CommunityV {
        CommunityV {
            stars_avg: opt_string_view(self.stars_avg),
            stars_count: self.stars_count,
            stars_min: self.stars_min,
            stars_max: self.stars_max,
            stats_views: self.stats_views,
            stats_favorites: self.stats_favorites,
        }
    }
}

/// A credit: who or what contributed to the media object.
#[derive(Clone, PartialEq, Eq, Debug)]
pub struct MediaCredit {
    pub text: String,
}

/// A caption or transcript: text with optional time boundaries.
#[derive(Clone, PartialEq, Eq, Debug)]
pub struct MediaText {
    pub text: Text,
    pub start_time: Option<MediaDuration>,
    pub end_time: Option<MediaDuration>,
}

/// Model of [`MediaText`]; times are in milliseconds.
#[verifier::ext_equal]
pub struct MediaTextV {
    pub text: TextV,
    pub start_time: Option<nat>,
    pub end_time: Option<nat>,
}

impl View for MediaText {
    type V = MediaTextV;

    open spec fn view(&self) -> MediaTextV {
        MediaTextV {
            text: self.text@,
            start_time: opt_duration_view(self.start_time),
            end_time: opt_duration_view(self.end_time),
        }
    }
}

/// The accumulator: all rich-media metadata gathered for one scope.
#[derive(Clone, PartialEq, Eq, Debug)]
pub struct MediaObject {
    pub title: Option<Text>,
    pub description: Option<Text>,
    pub content: Option<MediaContent>,
    pub thumbnails: Vec<MediaThumbnail>,
    pub community: Option<MediaCommunity>,
    pub credits: Vec<MediaCredit>,
    pub texts: Vec<MediaText>,
}

/// Model of [`MediaObject`]; a credit is modelled by its text.
#[verifier::ext_equal]
pub struct MediaObjectV {
    pub title: Option<TextV>,
    pub description: Option<TextV>,
    pub content: Option<ContentV>,
    pub thumbnails: Seq<ThumbnailV>,
    pub community: Option<CommunityV>,
    pub credits: Seq<Seq<char>>,
    pub texts: Seq<MediaTextV>,
}

/// The model of an optional text record.
pub open spec fn opt_text_view(o: Option<Text>) -> Option<TextV> {
    match o {
        Some(t) => Some(t@),
        None => None,
    }
}

impl View for MediaObject {
    type V = MediaObjectV;

    open spec fn view(&self) -> MediaObjectV {
        MediaObjectV {
            title: opt_text_view(self.title),
            description: opt_text_view(self.description),
            content: match self.content {
                Some(c) => Some(c@),
                None => None,
            },
            thumbnails: Seq::new(self.thumbnails@.len(), |i: int| self.thumbnails@[i]@),
            community: match self.community {
                Some(c) => Some(c@),
                None => None,
            },
            credits: Seq::new(self.credits@.len(), |i: int| self.credits@[i].text@),
            texts: Seq::new(self.texts@.len(), |i: int| self.texts@[i]@),
        }
    }
}

/// The all-default accumulator of a fresh scope.
pub open spec fn empty_media_object() -> MediaObjectV {
    MediaObjectV {
        title: None,
        description: None,
        content: None,
        thumbnails: Seq::empty(),
        community: None,
        credits: Seq::empty(),
        texts: Seq::empty(),
    }
}

/// The all-default community record.
pub open spec fn empty_community() -> CommunityV {
    CommunityV {
        stars_avg: None,
        stars_count: 0,
        stars_min: 0,
        stars_max: 0,
        stats_views: 0,
        stats_favorites: 0,
    }
}

impl MediaObject {
    /// A fresh accumulator with every field at its default.
    pub fn new() -> (r: MediaObject)
        ensures
            r@ == empty_media_object(),
    {
        let r = MediaObject {
            title: None,
            description: None,
            content: None,
            thumbnails: Vec::new(),
            community: None,
            credits: Vec::new(),
            texts: Vec::new(),
        };
        proof {
            assert(r@ =~= empty_media_object());
        }
        r
    }
}

impl MediaCommunity {
    /// A fresh community record with every field at its default.
    pub fn new() -> (r: MediaCommunity)
        ensures
            r@ == empty_community(),
    {
        MediaCommunity {
            stars_avg: None,
            stars_count: 0,
            stars_min: 0,
            stars_max: 0,
            stats_views: 0,
            stats_favorites: 0,
        }
    }
}

} // verus!
