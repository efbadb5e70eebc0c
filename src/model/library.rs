//! Ads of the ad library page, found inside JSON documents of unknown shape.
use crate::json::{
    bool_of, get_member, loose_unsigned, loose_unsigned_of, member, members, optional_text,
    optional_text_of, optional_text_ok, present, required_bool, required_text, required_unsigned,
    text_of, unsigned_of, DecodeError, Json, JsonNumber,
};
use crate::link::same_text;
use crate::time::Instant;
use vstd::prelude::*;

verus! {

/// Why no ad could be taken from a document.
#[derive(Clone, Copy, Debug, PartialEq, Eq, Structural)]
pub enum Error {
    /// A marked fragment does not have the shape of its schema.
    Json(DecodeError),
    MissingMarkupElement,
    MultipleMarkupElements,
    MissingSnapshotElement,
    MultipleSnapshotElements,
}

/// The markup of an ad: its element identifier and its HTML.
#[derive(Clone, Debug, PartialEq, Eq)]
pub struct Markup {
    pub id: String,
    pub html: String,
}

/// The kind of page that ran an ad.
#[derive(Clone, Copy, Debug, PartialEq, Eq, Structural)]
pub enum PageEntityType {
    PersonProfile,
    RegularPage,
    IgAdsIdentity,
}

/// A video of an ad.
#[derive(Clone, Debug, PartialEq, Eq)]
pub struct Video {
    pub video_hd_url: Option<String>,
    pub video_sd_url: String,
    pub watermarked_video_hd_url: Option<String>,
    pub watermarked_video_sd_url: Option<String>,
    pub video_preview_image_url: Option<String>,
}

/// What the library page shows of an ad and the page that ran it.
#[derive(Clone, Debug, PartialEq, Eq)]
pub struct Snapshot {
    pub title: Option<String>,
    pub link_url: Option<String>,
    pub creation_time: Instant,
    pub page_id: u64,
    pub page_name: String,
    pub current_page_name: Option<String>,
    pub page_profile_picture_url: String,
    pub page_entity_type: PageEntityType,
    pub page_is_profile_page: bool,
    pub page_like_count: usize,
    pub instagram_url: String,
    pub instagram_handle: String,
    pub instagram_actor_name: String,
    pub instagram_profile_pic_url: String,
    pub videos: Vec<Video>,
}

/// The card of an ad: its archive identifier and its snapshot.
#[derive(Clone, Debug, PartialEq, Eq)]
pub struct DeeplinkAdCard {
    pub ad_archive_id: u64,
    pub snapshot: Snapshot,
}

/// An ad of the library page: its markup and its card.
#[derive(Clone, Debug, PartialEq, Eq)]
pub struct Ad {
    pub markup: Markup,
    pub deeplink_ad_card: DeeplinkAdCard,
}

/// What a library page response holds: an ad, or none.
#[derive(Clone, Debug, PartialEq, Eq)]
pub enum AdResponse {
    Value(Ad),
    Empty,
}

impl AdResponse {
    /// The response of an optional ad.
    pub fn from_option(value: Option<Ad>) -> (r: AdResponse)
        ensures
            match value {
                Some(ad) => r == AdResponse::Value(ad),
                None => r is Empty,
            },
    {
        match value {
            Some(ad) => AdResponse::Value(ad),
            None => AdResponse::Empty,
        }
    }

    /// The ad of a response, if any.
    pub fn into_option(self) -> (r: Option<Ad>)
        ensures
            match self {
                AdResponse::Value(ad) => r == Some(ad),
                AdResponse::Empty => r is None,
            },
    {
        match self {
            AdResponse::Value(ad) => Some(ad),
            AdResponse::Empty => None,
        }
    }
}

/// Whether chrono can represent the instant that many seconds after the epoch.
pub uninterp spec fn seconds_in_range(secs: i64) -> bool;

/// Relies on `chrono::DateTime::from_timestamp_secs`, which gives `None`
/// exactly for seconds outside the range that chrono represents.
#[verifier::external_body]
fn timestamp_seconds_valid(secs: i64) -> (r: bool)
    ensures
        r == seconds_in_range(secs),
{
    chrono::DateTime::from_timestamp_secs(secs).is_some()
}

/// The seconds of a timestamp given as an integer number of seconds.
pub open spec fn seconds_of(j: Option<Json>) -> Option<i64> {
    match j {
        Some(Json::Number(JsonNumber::Unsigned(u))) => if u <= i64::MAX as u64 && seconds_in_range(
            u as i64,
        ) {
            Some(u as i64)
        } else {
            None
        },
        Some(Json::Number(JsonNumber::Negative(i))) => if seconds_in_range(i) {
            Some(i)
        } else {
            None
        },
        _ => None,
    }
}

/// The page kind that a value names.
pub open spec fn page_entity_type_of(j: Option<Json>) -> Option<PageEntityType> {
    match text_of(j) {
        Some(t) => if t == "person_profile"@ {
            Some(PageEntityType::PersonProfile)
        } else if t == "regular_page"@ {
            Some(PageEntityType::RegularPage)
        } else if t == "ig_ads_identity"@ {
            Some(PageEntityType::IgAdsIdentity)
        } else {
            None
        },
        None => None,
    }
}

/// The identifier and HTML of a markup fragment, which is written as
/// `[[id, {"__html": html, ...}, n, "HTML"]]` with `n` below 256.
pub open spec fn markup_of(j: Json) -> Option<(Seq<char>, Seq<char>)> {
    match j {
        Json::Array(outer) => if outer@.len() == 1 {
            match outer@[0] {
                Json::Array(t) => {
                    let html = match members(t@[1]) {
                        Some(es) => text_of(member(es, "__html"@)),
                        None => None,
                    };
                    if t@.len() == 4 && text_of(Some(t@[0])) is Some && html is Some && unsigned_of(
                        Some(t@[2]),
                        255,
                    ) is Some && text_of(Some(t@[3])) == Some("HTML"@) {
                        Some((text_of(Some(t@[0]))->0, html->0))
                    } else {
                        None
                    }
                },
                _ => None,
            }
        } else {
            None
        },
        _ => None,
    }
}

/// Whether a value has the shape of a video.
pub open spec fn video_ok(j: Json) -> bool {
    match members(j) {
        Some(es) => {
            &&& optional_text_ok(member(es, "video_hd_url"@))
            &&& text_of(member(es, "video_sd_url"@)) is Some
            &&& optional_text_ok(member(es, "watermarked_video_hd_url"@))
            &&& optional_text_ok(member(es, "watermarked_video_sd_url"@))
            &&& optional_text_ok(member(es, "video_preview_image_url"@))
        },
        None => false,
    }
}

/// Whether `v` is the video that a value of that shape describes.
pub open spec fn video_matches(j: Json, v: Video) -> bool {
    let es = members(j)->0;
    &&& v.video_hd_url.deep_view() == optional_text_of(member(es, "video_hd_url"@))
    &&& Some(v.video_sd_url@) == text_of(member(es, "video_sd_url"@))
    &&& v.watermarked_video_hd_url.deep_view() == optional_text_of(
        member(es, "watermarked_video_hd_url"@),
    )
    &&& v.watermarked_video_sd_url.deep_view() == optional_text_of(
        member(es, "watermarked_video_sd_url"@),
    )
    &&& v.video_preview_image_url.deep_view() == optional_text_of(
        member(es, "video_preview_image_url"@),
    )
}

/// Whether a value is an array of videos.
pub open spec fn videos_ok(j: Option<Json>) -> bool {
    match j {
        Some(Json::Array(items)) => forall|i: int| 0 <= i < items@.len() ==> video_ok(#[trigger] items@[i]),
        _ => false,
    }
}

/// Whether `vs` are the videos that an array of videos describes.
pub open spec fn videos_match(j: Option<Json>, vs: Seq<Video>) -> bool {
    match j {
        Some(Json::Array(items)) => vs.len() == items@.len() && forall|i: int|
            0 <= i < vs.len() ==> video_matches(#[trigger] items@[i], vs[i]),
        _ => false,
    }
}

/// Whether a value has the shape of a snapshot.
pub open spec fn snapshot_ok(j: Json) -> bool {
    match members(j) {
        Some(es) => {
            &&& optional_text_ok(member(es, "title"@))
            &&& optional_text_ok(member(es, "link_url"@))
            &&& seconds_of(member(es, "creation_time"@)) is Some
            &&& loose_unsigned_of(member(es, "page_id"@)) is Some
            &&& text_of(member(es, "page_name"@)) is Some
            &&& optional_text_ok(member(es, "current_page_name"@))
            &&& text_of(member(es, "page_profile_picture_url"@)) is Some
            &&& page_entity_type_of(member(es, "page_entity_type"@)) is Some
            &&& bool_of(member(es, "page_is_profile_page"@)) is Some
            &&& unsigned_of(member(es, "page_like_count"@), usize::MAX as u64) is Some
            &&& text_of(member(es, "instagram_url"@)) is Some
            &&& text_of(member(es, "instagram_handle"@)) is Some
            &&& text_of(member(es, "instagram_actor_name"@)) is Some
            &&& text_of(member(es, "instagram_profile_pic_url"@)) is Some
            &&& videos_ok(member(es, "videos"@))
        },
        None => false,
    }
}

/// Whether `s` is the snapshot that a value of that shape describes.
pub open spec fn snapshot_matches(j: Json, s: Snapshot) -> bool {
    let es = members(j)->0;
    &&& s.title.deep_view() == optional_text_of(member(es, "title"@))
    &&& s.link_url.deep_view() == optional_text_of(member(es, "link_url"@))
    &&& Some(s.creation_time.seconds) == seconds_of(member(es, "creation_time"@))
    &&& s.creation_time.nanos == 0
    &&& Some(s.page_id) == loose_unsigned_of(member(es, "page_id"@))
    &&& Some(s.page_name@) == text_of(member(es, "page_name"@))
    &&& s.current_page_name.deep_view() == optional_text_of(member(es, "current_page_name"@))
    &&& Some(s.page_profile_picture_url@) == text_of(member(es, "page_profile_picture_url"@))
    &&& Some(s.page_entity_type) == page_entity_type_of(member(es, "page_entity_type"@))
    &&& Some(s.page_is_profile_page) == bool_of(member(es, "page_is_profile_page"@))
    &&& Some(s.page_like_count as u64) == unsigned_of(
        member(es, "page_like_count"@),
        usize::MAX as u64,
    )
    &&& Some(s.instagram_url@) == text_of(member(es, "instagram_url"@))
    &&& Some(s.instagram_handle@) == text_of(member(es, "instagram_handle"@))
    &&& Some(s.instagram_actor_name@) == text_of(member(es, "instagram_actor_name"@))
    &&& Some(s.instagram_profile_pic_url@) == text_of(member(es, "instagram_profile_pic_url"@))
    &&& videos_match(member(es, "videos"@), s.videos@)
}

/// Whether a value has the shape of an ad card.
pub open spec fn card_ok(j: Json) -> bool {
    match members(j) {
        Some(es) => {
            &&& loose_unsigned_of(member(es, "adArchiveID"@)) is Some
            &&& member(es, "snapshot"@) is Some
            &&& snapshot_ok(member(es, "snapshot"@)->0)
        },
        None => false,
    }
}

/// Whether `c` is the card that a value of that shape describes.
pub open spec fn card_matches(j: Json, c: DeeplinkAdCard) -> bool {
    let es = members(j)->0;
    &&& Some(c.ad_archive_id) == loose_unsigned_of(member(es, "adArchiveID"@))
    &&& snapshot_matches(member(es, "snapshot"@)->0, c.snapshot)
}

/// Whether a value is null or has the shape of an ad card.
pub open spec fn optional_card_ok(j: Json) -> bool {
    j is Null || card_ok(j)
}

/// The values under `key` met in a depth-first walk of `v`, in the order met.
/// The walk does not enter the value of a `markup` or `deeplinkAdCard` member.
pub open spec fn marked_in(v: Json, key: Seq<char>) -> Seq<Json>
    decreases v,
{
    match v {
        Json::Array(items) => marked_in_items(items@, key),
        Json::Object(es) => marked_in_members(es@, key),
        _ => Seq::<Json>::empty(),
    }
}

/// [`marked_in`] over the elements of an array.
pub open spec fn marked_in_items(items: Seq<Json>, key: Seq<char>) -> Seq<Json>
    decreases items,
{
    if items.len() == 0 {
        Seq::<Json>::empty()
    } else {
        marked_in_items(items.drop_last(), key) + marked_in(items.last(), key)
    }
}

/// [`marked_in`] over the members of an object.
pub open spec fn marked_in_members(es: Seq<(String, Json)>, key: Seq<char>) -> Seq<Json>
    decreases es,
{
    if es.len() == 0 {
        Seq::<Json>::empty()
    } else {
        let (k, val) = es.last();
        marked_in_members(es.drop_last(), key) + if k@ == key {
            seq![val]
        } else if k@ == "markup"@ || k@ == "deeplinkAdCard"@ {
            Seq::<Json>::empty()
        } else {
            marked_in(val, key)
        }
    }
}

/// The markup fragments of a document.
pub open spec fn markups_in(v: Json) -> Seq<Json> {
    marked_in(v, "markup"@)
}

/// The card fragments of a document.
pub open spec fn cards_in(v: Json) -> Seq<Json> {
    marked_in(v, "deeplinkAdCard"@)
}

/// Whether every fragment met in a depth-first walk of `v` has the shape of
/// its schema.
pub open spec fn fragments_ok(v: Json) -> bool
    decreases v,
{
    match v {
        Json::Array(items) => items_ok(items@),
        Json::Object(es) => members_ok(es@),
        _ => true,
    }
}

/// [`fragments_ok`] for every element of an array.
pub open spec fn items_ok(items: Seq<Json>) -> bool
    decreases items,
{
    items.len() == 0 || (items_ok(items.drop_last()) && fragments_ok(items.last()))
}

/// [`member_ok`] for every member of an object.
pub open spec fn members_ok(es: Seq<(String, Json)>) -> bool
    decreases es,
{
    es.len() == 0 || (members_ok(es.drop_last()) && member_ok(es.last()))
}

/// The elements before `k` are fine when all are.
proof fn lemma_items_ok_prefix(items: Seq<Json>, k: int)
    requires
        0 <= k <= items.len(),
        items_ok(items),
    ensures
        items_ok(items.subrange(0, k)),
    decreases items.len(),
{
    if k == items.len() {
        assert(items.subrange(0, k) =~= items);
    } else {
        assert(items.drop_last().subrange(0, k) =~= items.subrange(0, k));
        lemma_items_ok_prefix(items.drop_last(), k);
    }
}

/// The members before `k` are fine when all are.
proof fn lemma_members_ok_prefix(es: Seq<(String, Json)>, k: int)
    requires
        0 <= k <= es.len(),
        members_ok(es),
    ensures
        members_ok(es.subrange(0, k)),
    decreases es.len(),
{
    if k == es.len() {
        assert(es.subrange(0, k) =~= es);
    } else {
        assert(es.drop_last().subrange(0, k) =~= es.subrange(0, k));
        lemma_members_ok_prefix(es.drop_last(), k);
    }
}

/// Whether a member's fragment, or the fragments within its value, have the
/// shape of their schema.
pub open spec fn member_ok(e: (String, Json)) -> bool
    decreases e,
{
    if e.0@ == "markup"@ {
        markup_of(e.1) is Some
    } else if e.0@ == "deeplinkAdCard"@ {
        optional_card_ok(e.1)
    } else {
        fragments_ok(e.1)
    }
}

/// The result of looking for an ad in a document.
pub enum Extraction {
    NoAd,
    OneAd,
    Invalid,
    MissingMarkup,
    MultipleMarkup,
    MissingSnapshot,
    MultipleSnapshot,
}

/// Whether a document is the empty array.
pub open spec fn is_empty_array(v: Json) -> bool {
    match v {
        Json::Array(items) => items@.len() == 0,
        _ => false,
    }
}

/// What looking for an ad in a document finds.
pub open spec fn extraction(v: Json) -> Extraction {
    let ms = markups_in(v);
    let cs = cards_in(v);
    if is_empty_array(v) {
        Extraction::NoAd
    } else if !fragments_ok(v) {
        Extraction::Invalid
    } else if ms.len() == 0 {
        if cs.len() == 1 && cs[0] is Null {
            Extraction::NoAd
        } else {
            Extraction::MissingMarkup
        }
    } else if ms.len() > 1 {
        Extraction::MultipleMarkup
    } else if cs.len() == 0 {
        Extraction::MissingSnapshot
    } else if cs.len() > 1 {
        Extraction::MultipleSnapshot
    } else if cs[0] is Null {
        Extraction::MissingSnapshot
    } else {
        Extraction::OneAd
    }
}

/// The outcome that a result of [`Ad::extract`] reports.
pub open spec fn extraction_of(r: Result<Option<Ad>, Error>) -> Extraction {
    match r {
        Ok(None) => Extraction::NoAd,
        Ok(Some(_)) => Extraction::OneAd,
        Err(Error::Json(_)) => Extraction::Invalid,
        Err(Error::MissingMarkupElement) => Extraction::MissingMarkup,
        Err(Error::MultipleMarkupElements) => Extraction::MultipleMarkup,
        Err(Error::MissingSnapshotElement) => Extraction::MissingSnapshot,
        Err(Error::MultipleSnapshotElements) => Extraction::MultipleSnapshot,
    }
}

/// Whether every markup found so far is the one its fragment describes.
pub open spec fn markups_match(frags: Seq<Json>, ms: Seq<Markup>) -> bool {
    frags.len() == ms.len() && forall|i: int|
        0 <= i < ms.len() ==> #[trigger] markup_of(frags[i]) == Some((ms[i].id@, ms[i].html@))
}

/// Whether every card found so far is the one its fragment describes.
pub open spec fn cards_match(frags: Seq<Json>, cs: Seq<Option<DeeplinkAdCard>>) -> bool {
    frags.len() == cs.len() && forall|i: int|
        0 <= i < cs.len() ==> match #[trigger] cs[i] {
            None => frags[i] is Null,
            Some(c) => !(frags[i] is Null) && card_ok(frags[i]) && card_matches(frags[i], c),
        }
}

/// The fragments found so far, in order, and what they decoded to.
pub struct Found {
    pub markups: Vec<Markup>,
    pub cards: Vec<Option<DeeplinkAdCard>>,
}

fn decode_page_entity_type(j: Option<&Json>) -> (r: Result<PageEntityType, DecodeError>)
    ensures
        match r {
            Ok(t) => page_entity_type_of(present(j)) == Some(t),
            Err(_) => page_entity_type_of(present(j)) is None,
        },
{
    let t = required_text(j)?;
    if same_text(t.as_str(), "person_profile") {
        Ok(PageEntityType::PersonProfile)
    } else if same_text(t.as_str(), "regular_page") {
        Ok(PageEntityType::RegularPage)
    } else if same_text(t.as_str(), "ig_ads_identity") {
        Ok(PageEntityType::IgAdsIdentity)
    } else {
        Err(DecodeError::UnexpectedShape)
    }
}

fn decode_seconds(j: Option<&Json>) -> (r: Result<i64, DecodeError>)
    ensures
        match r {
            Ok(s) => seconds_of(present(j)) == Some(s),
            Err(_) => seconds_of(present(j)) is None,
        },
{
    match j {
        Some(Json::Number(JsonNumber::Unsigned(u))) => {
            if *u <= i64::MAX as u64 && timestamp_seconds_valid(*u as i64) {
                Ok(*u as i64)
            } else {
                Err(DecodeError::UnexpectedShape)
            }
        },
        Some(Json::Number(JsonNumber::Negative(i))) => {
            if timestamp_seconds_valid(*i) {
                Ok(*i)
            } else {
                Err(DecodeError::UnexpectedShape)
            }
        },
        _ => Err(DecodeError::UnexpectedShape),
    }
}

impl Markup {
    /// Reads a markup fragment.
    pub fn decode(j: &Json) -> (r: Result<Markup, DecodeError>)
        ensures
            match r {
                Ok(m) => markup_of(*j) == Some((m.id@, m.html@)),
                Err(_) => markup_of(*j) is None,
            },
    {
        let outer = match j {
            Json::Array(outer) => outer,
            _ => return Err(DecodeError::UnexpectedShape),
        };
        if outer.len() != 1 {
            return Err(DecodeError::UnexpectedShape);
        }
        let t = match &outer[0] {
            Json::Array(t) => t,
            _ => return Err(DecodeError::UnexpectedShape),
        };
        if t.len() != 4 {
            return Err(DecodeError::UnexpectedShape);
        }
        let id = required_text(Some(&t[0]))?;
        let html = match &t[1] {
            Json::Object(es) => required_text(get_member(es, "__html"))?,
            _ => return Err(DecodeError::UnexpectedShape),
        };
        required_unsigned(Some(&t[2]), 255)?;
        let kind = required_text(Some(&t[3]))?;
        if !same_text(kind.as_str(), "HTML") {
            return Err(DecodeError::UnexpectedShape);
        }
        Ok(Markup { id, html })
    }
}

impl Video {
    /// Reads a video.
    pub fn decode(j: &Json) -> (r: Result<Video, DecodeError>)
        ensures
            match r {
                Ok(v) => video_ok(*j) && video_matches(*j, v),
                Err(_) => !video_ok(*j),
            },
    {
        let es = match j {
            Json::Object(es) => es,
            _ => return Err(DecodeError::UnexpectedShape),
        };
        let video_hd_url = optional_text(get_member(es, "video_hd_url"))?;
        let video_sd_url = required_text(get_member(es, "video_sd_url"))?;
        let watermarked_video_hd_url = optional_text(get_member(es, "watermarked_video_hd_url"))?;
        let watermarked_video_sd_url = optional_text(get_member(es, "watermarked_video_sd_url"))?;
        let video_preview_image_url = optional_text(get_member(es, "video_preview_image_url"))?;
        Ok(Video {
            video_hd_url,
            video_sd_url,
            watermarked_video_hd_url,
            watermarked_video_sd_url,
            video_preview_image_url,
        })
    }
}

fn decode_videos(j: Option<&Json>) -> (r: Result<Vec<Video>, DecodeError>)
    ensures
        match r {
            Ok(vs) => videos_ok(present(j)) && videos_match(present(j), vs@),
            Err(_) => !videos_ok(present(j)),
        },
{
    let items = match j {
        Some(Json::Array(items)) => items,
        _ => return Err(DecodeError::UnexpectedShape),
    };
    let mut out: Vec<Video> = Vec::new();
    let mut i: usize = 0;
    while i < items.len()
        invariant
            present(j) == Some(Json::Array(*items)),
            i <= items@.len(),
            out@.len() == i,
            forall|k: int| 0 <= k < i ==> video_ok(#[trigger] items@[k]),
            forall|k: int| 0 <= k < i ==> video_matches(#[trigger] items@[k], out@[k]),
        decreases items@.len() - i,
    {
        let v = match Video::decode(&items[i]) {
            Ok(v) => v,
            Err(e) => {
                assert(!video_ok(items@[i as int]));
                let ghost arr = Json::Array(*items);
                assert(arr->Array_0 == *items);
                assert(videos_ok(Some(arr)) ==> video_ok(items@[i as int]));
                return Err(e);
            },
        };
        out.push(v);
        i = i + 1;
    }
    Ok(out)
}

impl Snapshot {
    /// Reads a snapshot.
    pub fn decode(j: &Json) -> (r: Result<Snapshot, DecodeError>)
        ensures
            match r {
                Ok(s) => snapshot_ok(*j) && snapshot_matches(*j, s),
                Err(_) => !snapshot_ok(*j),
            },
    {
        let es = match j {
            Json::Object(es) => es,
            _ => return Err(DecodeError::UnexpectedShape),
        };
        let title = optional_text(get_member(es, "title"))?;
        let link_url = optional_text(get_member(es, "link_url"))?;
        let seconds = decode_seconds(get_member(es, "creation_time"))?;
        let page_id = loose_unsigned(get_member(es, "page_id"))?;
        let page_name = required_text(get_member(es, "page_name"))?;
        let current_page_name = optional_text(get_member(es, "current_page_name"))?;
        let page_profile_picture_url = required_text(get_member(es, "page_profile_picture_url"))?;
        let page_entity_type = decode_page_entity_type(get_member(es, "page_entity_type"))?;
        let page_is_profile_page = required_bool(get_member(es, "page_is_profile_page"))?;
        let page_like_count = required_unsigned(
            get_member(es, "page_like_count"),
            usize::MAX as u64,
        )?;
        let instagram_url = required_text(get_member(es, "instagram_url"))?;
        let instagram_handle = required_text(get_member(es, "instagram_handle"))?;
        let instagram_actor_name = required_text(get_member(es, "instagram_actor_name"))?;
        let instagram_profile_pic_url = required_text(get_member(es, "instagram_profile_pic_url"))?;
        let videos = decode_videos(get_member(es, "videos"))?;
        Ok(Snapshot {
            title,
            link_url,
            creation_time: Instant { seconds, nanos: 0 },
            page_id,
            page_name,
            current_page_name,
            page_profile_picture_url,
            page_entity_type,
            page_is_profile_page,
            page_like_count: page_like_count as usize,
            instagram_url,
            instagram_handle,
            instagram_actor_name,
            instagram_profile_pic_url,
            videos,
        })
    }
}

impl DeeplinkAdCard {
    /// Reads an ad card.
    pub fn decode(j: &Json) -> (r: Result<DeeplinkAdCard, DecodeError>)
        ensures
            match r {
                Ok(c) => card_ok(*j) && card_matches(*j, c),
                Err(_) => !card_ok(*j),
            },
    {
        let es = match j {
            Json::Object(es) => es,
            _ => return Err(DecodeError::UnexpectedShape),
        };
        let ad_archive_id = loose_unsigned(get_member(es, "adArchiveID"))?;
        let snapshot = match get_member(es, "snapshot") {
            Some(s) => Snapshot::decode(s)?,
            None => return Err(DecodeError::UnexpectedShape),
        };
        Ok(DeeplinkAdCard { ad_archive_id, snapshot })
    }

    /// Reads an ad card that may be null.
    pub fn decode_optional(j: &Json) -> (r: Result<Option<DeeplinkAdCard>, DecodeError>)
        ensures
            match r {
                Ok(None) => j is Null,
                Ok(Some(c)) => !(j is Null) && card_ok(*j) && card_matches(*j, c),
                Err(_) => !optional_card_ok(*j),
            },
    {
        match j {
            Json::Null => Ok(None),
            _ => Ok(Some(DeeplinkAdCard::decode(j)?)),
        }
    }
}

/// Extraction is total and decided by the fragments alone: the empty array
/// holds no ad; among documents whose fragments all have their schema's shape,
/// one markup and one non-null card give an ad, two or more markups are an
/// error, and one markup without any card is a missing snapshot.
pub proof fn lemma_extraction_cases(v: Json)
    ensures
        is_empty_array(v) ==> extraction(v) is NoAd,
        !is_empty_array(v) && fragments_ok(v) && markups_in(v).len() >= 2 ==> extraction(
            v,
        ) is MultipleMarkup,
        !is_empty_array(v) && fragments_ok(v) && markups_in(v).len() == 1 && cards_in(v).len() == 1
            && !(cards_in(v)[0] is Null) ==> extraction(v) is OneAd,
        !is_empty_array(v) && fragments_ok(v) && markups_in(v).len() == 1 && cards_in(v).len() == 0
            ==> extraction(v) is MissingSnapshot,
{
}

/// Matching markups extend by appending.
proof fn lemma_markups_append(a: Seq<Json>, x: Seq<Markup>, b: Seq<Json>, y: Seq<Markup>)
    requires
        markups_match(a, x),
        markups_match(b, y),
    ensures
        markups_match(a + b, x + y),
{
    assert forall|i: int| 0 <= i < (x + y).len() implies #[trigger] markup_of((a + b)[i]) == Some(
        ((x + y)[i].id@, (x + y)[i].html@),
    ) by {
        if i >= x.len() {
            assert(markup_of(b[i - x.len()]) == Some((y[i - x.len()].id@, y[i - x.len()].html@)));
        }
    }
}

/// Matching cards extend by appending.
proof fn lemma_cards_append(
    a: Seq<Json>,
    x: Seq<Option<DeeplinkAdCard>>,
    b: Seq<Json>,
    y: Seq<Option<DeeplinkAdCard>>,
)
    requires
        cards_match(a, x),
        cards_match(b, y),
    ensures
        cards_match(a + b, x + y),
{
    assert forall|i: int| 0 <= i < (x + y).len() implies match #[trigger] (x + y)[i] {
        None => (a + b)[i] is Null,
        Some(c) => !((a + b)[i] is Null) && card_ok((a + b)[i]) && card_matches((a + b)[i], c),
    } by {
        if i >= x.len() {
            assert((x + y)[i] == y[i - x.len()]);
            assert((a + b)[i] == b[i - x.len()]);
        } else {
            assert((x + y)[i] == x[i]);
            assert((a + b)[i] == a[i]);
        }
    }
}

/// Whether `found` grew from `(m0, c0)` by the fragments `fm` and `fc`.
pub open spec fn grew_by(
    found: Found,
    m0: Seq<Markup>,
    c0: Seq<Option<DeeplinkAdCard>>,
    fm: Seq<Json>,
    fc: Seq<Json>,
) -> bool {
    &&& found.markups@.len() == m0.len() + fm.len()
    &&& found.markups@.subrange(0, m0.len() as int) == m0
    &&& markups_match(fm, found.markups@.subrange(m0.len() as int, found.markups@.len() as int))
    &&& found.cards@.len() == c0.len() + fc.len()
    &&& found.cards@.subrange(0, c0.len() as int) == c0
    &&& cards_match(fc, found.cards@.subrange(c0.len() as int, found.cards@.len() as int))
}

/// Growing by `fm, fc` and then by `gm, gc` is growing by both.
proof fn lemma_grew_twice(
    f1: Found,
    f2: Found,
    m0: Seq<Markup>,
    c0: Seq<Option<DeeplinkAdCard>>,
    fm: Seq<Json>,
    fc: Seq<Json>,
    gm: Seq<Json>,
    gc: Seq<Json>,
)
    requires
        grew_by(f1, m0, c0, fm, fc),
        grew_by(f2, f1.markups@, f1.cards@, gm, gc),
    ensures
        grew_by(f2, m0, c0, fm + gm, fc + gc),
{
    let l1 = f1.markups@.len() as int;
    let k1 = f1.cards@.len() as int;
    assert(f2.markups@.subrange(0, m0.len() as int) =~= m0);
    assert(f2.cards@.subrange(0, c0.len() as int) =~= c0);
    assert(f2.markups@.subrange(m0.len() as int, f2.markups@.len() as int) =~= f1.markups@.subrange(
        m0.len() as int,
        l1,
    ) + f2.markups@.subrange(l1, f2.markups@.len() as int));
    assert(f2.cards@.subrange(c0.len() as int, f2.cards@.len() as int) =~= f1.cards@.subrange(
        c0.len() as int,
        k1,
    ) + f2.cards@.subrange(k1, f2.cards@.len() as int));
    lemma_markups_append(
        fm,
        f1.markups@.subrange(m0.len() as int, l1),
        gm,
        f2.markups@.subrange(l1, f2.markups@.len() as int),
    );
    lemma_cards_append(
        fc,
        f1.cards@.subrange(c0.len() as int, k1),
        gc,
        f2.cards@.subrange(k1, f2.cards@.len() as int),
    );
}

impl Ad {
    /// Walks `value` depth first and adds every fragment met to `found`.
    fn extract_rec(value: &Json, found: &mut Found) -> (r: Result<(), Error>)
        ensures
            match r {
                Ok(()) => fragments_ok(*value) && grew_by(
                    *final(found),
                    old(found).markups@,
                    old(found).cards@,
                    markups_in(*value),
                    cards_in(*value),
                ),
                Err(e) => e is Json && !fragments_ok(*value),
            },
        decreases value,
    {
        let ghost m0 = found.markups@;
        let ghost c0 = found.cards@;
        proof {
            assert(found.markups@.subrange(0, m0.len() as int) =~= m0);
            assert(found.cards@.subrange(0, c0.len() as int) =~= c0);
            assert(found.markups@.subrange(m0.len() as int, m0.len() as int) =~= Seq::<Markup>::empty());
            assert(found.cards@.subrange(c0.len() as int, c0.len() as int) =~= Seq::<Option<DeeplinkAdCard>>::empty());
        }
        match value {
            Json::Array(items) => {
                let mut i: usize = 0;
                while i < items.len()
                    invariant
                        *value == Json::Array(*items),
                        i <= items@.len(),
                        items_ok(items@.subrange(0, i as int)),
                        grew_by(
                            *found,
                            m0,
                            c0,
                            marked_in_items(items@.subrange(0, i as int), "markup"@),
                            marked_in_items(items@.subrange(0, i as int), "deeplinkAdCard"@),
                        ),
                    decreases items@.len() - i,
                {
                    let ghost f1 = *found;
                    proof {
                        let ghost arr = *value;
                        assert(decreases_to!(arr => arr->Array_0));
                        assert(decreases_to!(arr->Array_0 => arr->Array_0@));
                        assert(decreases_to!(arr->Array_0@ => arr->Array_0@[i as int]));
                    }
                    match Self::extract_rec(&items[i], found) {
                        Ok(()) => {},
                        Err(e) => {
                            proof {
                                let ghost arr = *value;
                                assert(arr->Array_0 == *items);
                                let next = items@.subrange(0, i + 1);
                                assert(next.drop_last() =~= items@.subrange(0, i as int));
                                assert(!items_ok(next));
                                if items_ok(items@) {
                                    lemma_items_ok_prefix(items@, i + 1);
                                }
                            }
                            return Err(e);
                        },
                    }
                    proof {
                        let next = items@.subrange(0, i + 1);
                        assert(next.drop_last() =~= items@.subrange(0, i as int));
                        assert(next.last() == items@[i as int]);
                        assert(items_ok(next));
                        lemma_grew_twice(
                            f1,
                            *found,
                            m0,
                            c0,
                            marked_in_items(items@.subrange(0, i as int), "markup"@),
                            marked_in_items(items@.subrange(0, i as int), "deeplinkAdCard"@),
                            markups_in(items@[i as int]),
                            cards_in(items@[i as int]),
                        );
                    }
                    i = i + 1;
                }
                assert(items@.subrange(0, items@.len() as int) =~= items@);
                proof {
                    let ghost arr = *value;
                    assert(arr->Array_0 == *items);
                    assert(markups_in(arr) == marked_in_items(items@, "markup"@));
                    assert(cards_in(arr) == marked_in_items(items@, "deeplinkAdCard"@));
                    assert(fragments_ok(arr));
                }
                Ok(())
            },
            Json::Object(es) => {
                let mut i: usize = 0;
                while i < es.len()
                    invariant
                        *value == Json::Object(*es),
                        i <= es@.len(),
                        members_ok(es@.subrange(0, i as int)),
                        grew_by(
                            *found,
                            m0,
                            c0,
                            marked_in_members(es@.subrange(0, i as int), "markup"@),
                            marked_in_members(es@.subrange(0, i as int), "deeplinkAdCard"@),
                        ),
                    decreases es@.len() - i,
                {
                    let ghost f1 = *found;
                    let ghost next = es@.subrange(0, i + 1);
                    proof {
                        assert(next.drop_last() =~= es@.subrange(0, i as int));
                        assert(next.last() == es@[i as int]);
                        reveal_strlit("markup");
                        reveal_strlit("deeplinkAdCard");
                        assert("markup"@.len() == 6 && "deeplinkAdCard"@.len() == 14);
                        assert("markup"@ != "deeplinkAdCard"@);
                    }
                    let key = es[i].0.as_str();
                    let val = &es[i].1;
                    if same_text(key, "markup") {
                        let m = match Markup::decode(val) {
                            Ok(m) => m,
                            Err(e) => {
                                proof {
                                    let ghost obj = *value;
                                    assert(obj->Object_0 == *es);
                                    assert(!member_ok(es@[i as int]));
                                    assert(!members_ok(next));
                                    if members_ok(es@) {
                                        lemma_members_ok_prefix(es@, i + 1);
                                    }
                                }
                                return Err(Error::Json(e));
                            },
                        };
                        found.markups.push(m);
                        proof {
                            assert(found.markups@.subrange(f1.markups@.len() as int, found.markups@.len() as int) =~= seq![m]);
                            assert(found.cards@ =~= f1.cards@);
                            assert(found.cards@.subrange(f1.cards@.len() as int, found.cards@.len() as int) =~= Seq::<Option<DeeplinkAdCard>>::empty());
                            assert(found.markups@.subrange(0, f1.markups@.len() as int) =~= f1.markups@);
                            assert(found.cards@.subrange(0, f1.cards@.len() as int) =~= f1.cards@);
                            assert(grew_by(*found, f1.markups@, f1.cards@, seq![*val], Seq::<Json>::empty()));
                        }
                    } else if same_text(key, "deeplinkAdCard") {
                        let c = match DeeplinkAdCard::decode_optional(val) {
                            Ok(c) => c,
                            Err(e) => {
                                proof {
                                    let ghost obj = *value;
                                    assert(obj->Object_0 == *es);
                                    assert(!member_ok(es@[i as int]));
                                    assert(!members_ok(next));
                                    if members_ok(es@) {
                                        lemma_members_ok_prefix(es@, i + 1);
                                    }
                                }
                                return Err(Error::Json(e));
                            },
                        };
                        found.cards.push(c);
                        proof {
                            assert(found.cards@.subrange(f1.cards@.len() as int, found.cards@.len() as int) =~= seq![c]);
                            assert(found.markups@ =~= f1.markups@);
                            assert(found.markups@.subrange(f1.markups@.len() as int, found.markups@.len() as int) =~= Seq::<Markup>::empty());
                            assert(found.markups@.subrange(0, f1.markups@.len() as int) =~= f1.markups@);
                            assert(found.cards@.subrange(0, f1.cards@.len() as int) =~= f1.cards@);
                            assert(grew_by(*found, f1.markups@, f1.cards@, Seq::<Json>::empty(), seq![*val]));
                        }
                    } else {
                        proof {
                            let ghost obj = *value;
                            assert(decreases_to!(obj => obj->Object_0));
                            assert(decreases_to!(obj->Object_0 => obj->Object_0@));
                            assert(decreases_to!(obj->Object_0@ => obj->Object_0@[i as int]));
                            assert(decreases_to!(obj->Object_0@[i as int] => obj->Object_0@[i as int].1));
                        }
                        match Self::extract_rec(val, found) {
                            Ok(()) => {},
                            Err(e) => {
                                proof {
                                    let ghost obj = *value;
                                    assert(obj->Object_0 == *es);
                                    assert(!member_ok(es@[i as int]));
                                    assert(!members_ok(next));
                                    if members_ok(es@) {
                                        lemma_members_ok_prefix(es@, i + 1);
                                    }
                                }
                                return Err(e);
                            },
                        }
                    }
                    proof {
                        assert(member_ok(es@[i as int]));
                        assert(members_ok(next));
                        let a = marked_in_members(es@.subrange(0, i as int), "markup"@);
                        let b = marked_in_members(es@.subrange(0, i as int), "deeplinkAdCard"@);
                        if es@[i as int].0@ == "markup"@ {
                            assert(marked_in_members(next, "markup"@) == a + seq![*val]);
                            assert(marked_in_members(next, "deeplinkAdCard"@) == b + Seq::<Json>::empty());
                            lemma_grew_twice(f1, *found, m0, c0, a, b, seq![*val], Seq::<Json>::empty());
                        } else if es@[i as int].0@ == "deeplinkAdCard"@ {
                            assert(marked_in_members(next, "markup"@) == a + Seq::<Json>::empty());
                            assert(marked_in_members(next, "deeplinkAdCard"@) == b + seq![*val]);
                            lemma_grew_twice(f1, *found, m0, c0, a, b, Seq::<Json>::empty(), seq![*val]);
                        } else {
                            lemma_grew_twice(f1, *found, m0, c0, a, b, markups_in(*val), cards_in(*val));
                        }
                    }
                    i = i + 1;
                }
                assert(es@.subrange(0, es@.len() as int) =~= es@);
                proof {
                    let ghost obj = *value;
                    assert(obj->Object_0 == *es);
                    assert(markups_in(obj) == marked_in_members(es@, "markup"@));
                    assert(cards_in(obj) == marked_in_members(es@, "deeplinkAdCard"@));
                    assert(fragments_ok(obj));
                }
                Ok(())
            },
            _ => {
                proof {
                    assert(markups_in(*value) =~= Seq::<Json>::empty());
                    assert(cards_in(*value) =~= Seq::<Json>::empty());
                }
                Ok(())
            },
        }
    }

    /// Looks for the one ad of a document: walks it depth first, reads every
    /// `markup` and `deeplinkAdCard` fragment met, and assembles the ad when
    /// there is exactly one of each and the card is not null.
    pub fn extract(value: &Json) -> (r: Result<Option<Ad>, Error>)
        ensures
            extraction_of(r) == extraction(*value),
            match r {
                Ok(Some(ad)) => markup_of(markups_in(*value)[0]) == Some(
                    (ad.markup.id@, ad.markup.html@),
                ) && card_matches(cards_in(*value)[0], ad.deeplink_ad_card),
                _ => true,
            },
    {
        if let Json::Array(items) = value {
            if items.len() == 0 {
                return Ok(None);
            }
        }
        assert(!is_empty_array(*value));
        let mut found = Found { markups: Vec::new(), cards: Vec::new() };
        match Self::extract_rec(value, &mut found) {
            Ok(()) => {},
            Err(e) => {
                return Err(e);
            },
        }
        let ghost ms = markups_in(*value);
        let ghost cs = cards_in(*value);
        assert(found.markups@.subrange(0, found.markups@.len() as int) =~= found.markups@);
        assert(found.cards@.subrange(0, found.cards@.len() as int) =~= found.cards@);
        assert(markups_match(ms, found.markups@));
        assert(cards_match(cs, found.cards@));
        let nm = found.markups.len();
        let nc = found.cards.len();
        if nm == 0 {
            if nc == 1 && found.cards[0].is_none() {
                assert(cs[0] is Null);
                Ok(None)
            } else {
                if nc == 1 {
                    assert(!(cs[0] is Null));
                }
                Err(Error::MissingMarkupElement)
            }
        } else if nm > 1 {
            Err(Error::MultipleMarkupElements)
        } else if nc == 0 {
            Err(Error::MissingSnapshotElement)
        } else if nc > 1 {
            Err(Error::MultipleSnapshotElements)
        } else {
            let ghost m0 = found.markups@[0];
            let ghost c0 = found.cards@[0];
            let markup = match found.markups.pop() {
                Some(m) => m,
                None => return Err(Error::MissingMarkupElement),
            };
            assert(markup == m0);
            match found.cards.pop() {
                Some(Some(card)) => {
                    assert(Some(card) == c0);
                    Ok(Some(Ad { markup, deeplink_ad_card: card }))
                },
                _ => {
                    assert(cs[0] is Null);
                    Err(Error::MissingSnapshotElement)
                },
            }
        }
    }

}

} // verus!
