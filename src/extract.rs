use vstd::prelude::*;
use crate::time::Timestamp;

verus! {

#[verifier::external_type_specification]
#[verifier::external_body]
pub struct ExExif(nom_exif::Exif);

#[verifier::external_type_specification]
#[verifier::external_body]
pub struct ExTrackInfo(nom_exif::TrackInfo);

/// The EXIF tags that may carry the creation time.
#[derive(Clone, Copy, Debug, PartialEq, Eq, Structural)]
pub enum ExifTimeTag {
    DateTimeOriginal,
    OffsetTimeOriginal,
    CreateDate,
}

/// The track tags that may carry the creation time.
#[derive(Clone, Copy, Debug, PartialEq, Eq, Structural)]
pub enum TrackTimeTag {
    CreateDate,
}

/// The metadata that one media file offers.
pub enum MediaMetadata {
    /// The file carries EXIF data, parsed.
    Exif(nom_exif::Exif),
    /// The file carries container track data, parsed.
    Track(nom_exif::TrackInfo),
    /// The file carries neither.
    Missing,
    /// The file claims metadata that could not be parsed.
    Unparsable(String),
}

/// Why no creation time came out of a file's metadata.
#[derive(Debug, PartialEq, Eq)]
pub enum ExtractError {
    NoMetadata,
    TagNotFound,
    ParseError(String),
}

/// The EXIF tags of the main image that hold a time, with that time.
pub uninterp spec fn exif_times(exif: nom_exif::Exif) -> Map<ExifTimeTag, Timestamp>;

/// The track tags that hold a time, with that time.
pub uninterp spec fn track_times(track: nom_exif::TrackInfo) -> Map<TrackTimeTag, Timestamp>;

/// Relies on nom_exif's `Exif::get` and `EntryValue::as_time`: the time
/// that `tag` of the main image holds, if it holds one.
#[verifier::external_body]
fn exif_time(exif: &nom_exif::Exif, tag: ExifTimeTag) -> (r: Option<Timestamp>)
    ensures
        r == (if exif_times(*exif).contains_key(tag) {
            Some(exif_times(*exif)[tag])
        } else {
            None
        }),
        r matches Some(t) ==> t.wf(),
{
    let tag = match tag {
        ExifTimeTag::DateTimeOriginal => nom_exif::ExifTag::DateTimeOriginal,
        ExifTimeTag::OffsetTimeOriginal => nom_exif::ExifTag::OffsetTimeOriginal,
        ExifTimeTag::CreateDate => nom_exif::ExifTag::CreateDate,
    };
    #[allow(deprecated)]
    let time = exif.get(tag)?.as_time()?;
    Some(Timestamp {
        seconds: time.timestamp(),
        nanos: time.timestamp_subsec_nanos(),
        offset_seconds: time.offset().local_minus_utc(),
    })
}

/// Relies on nom_exif's `TrackInfo::get` and `EntryValue::as_time`: the
/// time that `tag` holds, if it holds one.
#[verifier::external_body]
fn track_time(track: &nom_exif::TrackInfo, tag: TrackTimeTag) -> (r: Option<Timestamp>)
    ensures
        r == (if track_times(*track).contains_key(tag) {
            Some(track_times(*track)[tag])
        } else {
            None
        }),
        r matches Some(t) ==> t.wf(),
{
    let tag = match tag {
        TrackTimeTag::CreateDate => nom_exif::TrackInfoTag::CreateDate,
    };
    #[allow(deprecated)]
    let time = track.get(tag)?.as_time()?;
    Some(Timestamp {
        seconds: time.timestamp(),
        nanos: time.timestamp_subsec_nanos(),
        offset_seconds: time.offset().local_minus_utc(),
    })
}

/// EXIF tags in the order they are asked for the creation time.
pub open spec fn exif_priority() -> Seq<ExifTimeTag> {
    seq![ExifTimeTag::DateTimeOriginal, ExifTimeTag::OffsetTimeOriginal, ExifTimeTag::CreateDate]
}

/// Track tags in the order they are asked for the creation time.
pub open spec fn track_priority() -> Seq<TrackTimeTag> {
    seq![TrackTimeTag::CreateDate]
}

/// The time of the first tag of `tags` that `times` holds.
pub open spec fn first_exif_time(times: Map<ExifTimeTag, Timestamp>, tags: Seq<ExifTimeTag>) -> Option<
    Timestamp,
>
    decreases tags.len(),
{
    if tags.len() == 0 {
        None
    } else if times.contains_key(tags[0]) {
        Some(times[tags[0]])
    } else {
        first_exif_time(times, tags.drop_first())
    }
}

/// The time of the first tag of `tags` that `times` holds.
pub open spec fn first_track_time(
    times: Map<TrackTimeTag, Timestamp>,
    tags: Seq<TrackTimeTag>,
) -> Option<Timestamp>
    decreases tags.len(),
{
    if tags.len() == 0 {
        None
    } else if times.contains_key(tags[0]) {
        Some(times[tags[0]])
    } else {
        first_track_time(times, tags.drop_first())
    }
}

/// A found time, or the tag list ran out.
pub open spec fn found_or_missing(t: Option<Timestamp>) -> Result<Timestamp, ExtractError> {
    match t {
        Some(t) => Ok(t),
        None => Err(ExtractError::TagNotFound),
    }
}

/// The creation time that a file's metadata gives.
pub open spec fn creation_time(m: MediaMetadata) -> Result<Timestamp, ExtractError> {
    match m {
        MediaMetadata::Exif(e) => found_or_missing(first_exif_time(exif_times(e), exif_priority())),
        MediaMetadata::Track(t) => found_or_missing(
            first_track_time(track_times(t), track_priority()),
        ),
        MediaMetadata::Missing => Err(ExtractError::NoMetadata),
        MediaMetadata::Unparsable(cause) => Err(ExtractError::ParseError(cause)),
    }
}

fn exif_tag_at(i: usize) -> (r: ExifTimeTag)
    requires
        i < exif_priority().len(),
    ensures
        r == exif_priority()[i as int],
{
    if i == 0 {
        ExifTimeTag::DateTimeOriginal
    } else if i == 1 {
        ExifTimeTag::OffsetTimeOriginal
    } else {
        ExifTimeTag::CreateDate
    }
}

/// Asks the EXIF tags in their fixed order; the first that holds a time wins.
pub fn extract_creation_datetime_from_exif(exif: &nom_exif::Exif) -> (r: Result<Timestamp, ExtractError>)
    ensures
        r == found_or_missing(first_exif_time(exif_times(*exif), exif_priority())),
        r matches Ok(t) ==> t.wf(),
{
    let ghost times = exif_times(*exif);
    let mut i: usize = 0;
    assert(exif_priority().subrange(0, 3) =~= exif_priority());
    while i < 3
        invariant
            i <= 3,
            times == exif_times(*exif),
            first_exif_time(times, exif_priority()) == first_exif_time(
                times,
                exif_priority().subrange(i as int, 3),
            ),
        decreases 3 - i,
    {
        let tag = exif_tag_at(i);
        let ghost rest = exif_priority().subrange(i as int, 3);
        assert(rest[0] == tag);
        if let Some(t) = exif_time(exif, tag) {
            return Ok(t);
        }
        assert(rest.drop_first() =~= exif_priority().subrange(i + 1, 3));
        i = i + 1;
    }
    Err(ExtractError::TagNotFound)
}

/// Asks the track tags in their fixed order; the first that holds a time wins.
pub fn extract_creation_datetime_from_track_info(track: &nom_exif::TrackInfo) -> (r: Result<
    Timestamp,
    ExtractError,
>)
    ensures
        r == found_or_missing(first_track_time(track_times(*track), track_priority())),
        r matches Ok(t) ==> t.wf(),
{
    let ghost times = track_times(*track);
    assert(track_priority().drop_first() =~= Seq::<TrackTimeTag>::empty());
    reveal_with_fuel(first_track_time, 2);
    match track_time(track, TrackTimeTag::CreateDate) {
        Some(t) => Ok(t),
        None => Err(ExtractError::TagNotFound),
    }
}

/// The creation time of a file: from EXIF where it has EXIF, else from its
/// tracks; an error where it has neither or its metadata did not parse.
pub fn extract_creation_datetime_from_media_source(metadata: &MediaMetadata) -> (r: Result<
    Timestamp,
    ExtractError,
>)
    ensures
        r == creation_time(*metadata),
        r matches Ok(t) ==> t.wf(),
{
    match metadata {
        MediaMetadata::Exif(exif) => extract_creation_datetime_from_exif(exif),
        MediaMetadata::Track(track) => extract_creation_datetime_from_track_info(track),
        MediaMetadata::Missing => Err(ExtractError::NoMetadata),
        MediaMetadata::Unparsable(cause) => Err(ExtractError::ParseError(cause.clone())),
    }
}

} // verus!
