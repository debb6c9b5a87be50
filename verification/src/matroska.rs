use vstd::prelude::*;

use crate::deserialize::{DeserializeMatroska, DeserializeMatroskaTrack, DeserializeMatroskaTrackType};

verus! {

/// One Matroska container file: its path and its tracks, in container order.
#[derive(Debug)]
pub struct Matroska {
    pub path: String,
    pub tracks: Vec<MatroskaTrack>,
}

/// One track of a Matroska file. `id` is the 0-based internal index; the
/// external track number is `id + 1`. `language` is the short 3-letter code
/// and `language_ietf` the IETF tag; either may be the sentinel `"und"`,
/// meaning undetermined.
#[derive(Debug)]
pub struct MatroskaTrack {
    pub id: usize,
    pub name: Option<String>,
    pub type_: MatroskaTrackType,
    pub default: bool,
    pub language: String,
    pub language_ietf: String,
}

#[derive(Debug, Clone, Copy, PartialEq, Eq, Structural)]
pub enum MatroskaTrackType {
    Audio,
    Video,
    Subtitles,
}

/// The mathematical value of a [`MatroskaTrack`].
pub ghost struct TrackV {
    pub id: nat,
    pub name: Option<Seq<char>>,
    pub type_: MatroskaTrackType,
    pub default: bool,
    pub language: Seq<char>,
    pub language_ietf: Seq<char>,
}

/// The mathematical value of a [`Matroska`].
pub ghost struct MatroskaV {
    pub path: Seq<char>,
    pub tracks: Seq<TrackV>,
}

impl View for MatroskaTrack {
    type V = TrackV;

    open spec fn view(&self) -> TrackV {
        TrackV {
            id: self.id as nat,
            name: self.name.deep_view(),
            type_: self.type_,
            default: self.default,
            language: self.language@,
            language_ietf: self.language_ietf@,
        }
    }
}

impl View for Matroska {
    type V = MatroskaV;

    open spec fn view(&self) -> MatroskaV {
        MatroskaV {
            path: self.path@,
            tracks: self.tracks@.map_values(|t: MatroskaTrack| t@),
        }
    }
}

/// The subsequence of `tracks` whose kind is `kind`, in order.
pub open spec fn tracks_of_kind(tracks: Seq<TrackV>, kind: MatroskaTrackType) -> Seq<TrackV>
    decreases tracks.len(),
{
    if tracks.len() == 0 {
        Seq::empty()
    } else {
        let rest = tracks_of_kind(tracks.drop_last(), kind);
        if tracks.last().type_ == kind {
            rest.push(tracks.last())
        } else {
            rest
        }
    }
}

/// The track values behind a sequence of track references.
pub open spec fn track_refs_view(tracks: Seq<&MatroskaTrack>) -> Seq<TrackV> {
    tracks.map_values(|t: &MatroskaTrack| t@)
}

impl MatroskaTrack {
    /// Is this a video
    pub fn is_video(&self) -> (r: bool)
        ensures
            r == (self@.type_ is Video),
    {
        matches!(self.type_, MatroskaTrackType::Video)
    }

    /// Is this an audio
    pub fn is_audio(&self) -> (r: bool)
        ensures
            r == (self@.type_ is Audio),
    {
        matches!(self.type_, MatroskaTrackType::Audio)
    }

    /// Is this a subtitle
    pub fn is_subtitle(&self) -> (r: bool)
        ensures
            r == (self@.type_ is Subtitles),
    {
        matches!(self.type_, MatroskaTrackType::Subtitles)
    }
}

impl Matroska {
    /// Build a file's in-memory model from its path and the already-parsed
    /// metadata records: one track per record, in record order, with a
    /// missing IETF tag normalized to the sentinel `"und"`.
    pub fn from_deserialize(path: &str, infos: DeserializeMatroska) -> (m: Matroska)
        ensures
            m@.path == path@,
            m@.tracks == infos@.map_values(|r| crate::deserialize::track_of_record(r)),
    {
        let mut tracks: Vec<MatroskaTrack> = Vec::new();
        let n = infos.tracks.len();
        for i in 0..n
            invariant
                n == infos.tracks.len(),
                tracks.len() == i,
                forall|j: int|
                    0 <= j < i ==> #[trigger] tracks@[j]@ == crate::deserialize::track_of_record(
                        infos@[j],
                    ),
        {
            let track = Self::track_from_record(&infos.tracks[i]);
            tracks.push(track);
        }
        let m = Matroska { path: path.to_owned(), tracks };
        proof {
            assert(m@.tracks =~= infos@.map_values(|r| crate::deserialize::track_of_record(r)));
        }
        m
    }

    /// One track from one metadata record.
    fn track_from_record(record: &DeserializeMatroskaTrack) -> (t: MatroskaTrack)
        ensures
            t@ == crate::deserialize::track_of_record(record@),
    {
        MatroskaTrack {
            id: record.id,
            name: match &record.properties.track_name {
                Some(n) => Some(n.clone()),
                None => None,
            },
            type_: match record.type_ {
                DeserializeMatroskaTrackType::Audio => MatroskaTrackType::Audio,
                DeserializeMatroskaTrackType::Video => MatroskaTrackType::Video,
                DeserializeMatroskaTrackType::Subtitles => MatroskaTrackType::Subtitles,
            },
            default: record.properties.default_track,
            language: record.properties.language.clone(),
            language_ietf: match &record.properties.language_ietf {
                Some(l) => l.clone(),
                None => "und".to_owned(),
            },
        }
    }

    /// Get videos tracks
    pub fn get_videos<'a>(&'a self) -> (r: Vec<&'a MatroskaTrack>)
        ensures
            track_refs_view(r@) == tracks_of_kind(self@.tracks, MatroskaTrackType::Video),
    {
        self.tracks_matching(MatroskaTrackType::Video)
    }

    /// Get audios tracks
    pub fn get_audios<'a>(&'a self) -> (r: Vec<&'a MatroskaTrack>)
        ensures
            track_refs_view(r@) == tracks_of_kind(self@.tracks, MatroskaTrackType::Audio),
    {
        self.tracks_matching(MatroskaTrackType::Audio)
    }

    /// Get subtitles tracks
    pub fn get_subtitles<'a>(&'a self) -> (r: Vec<&'a MatroskaTrack>)
        ensures
            track_refs_view(r@) == tracks_of_kind(self@.tracks, MatroskaTrackType::Subtitles),
    {
        self.tracks_matching(MatroskaTrackType::Subtitles)
    }

    fn tracks_matching<'a>(&'a self, kind: MatroskaTrackType) -> (r: Vec<&'a MatroskaTrack>)
        ensures
            track_refs_view(r@) == tracks_of_kind(self@.tracks, kind),
    {
        let mut out: Vec<&'a MatroskaTrack> = Vec::new();
        let n = self.tracks.len();
        for i in 0..n
            invariant
                n == self.tracks.len(),
                track_refs_view(out@) == tracks_of_kind(
                    self@.tracks.subrange(0, i as int),
                    kind,
                ),
        {
            if self.tracks[i].type_ == kind {
                out.push(&self.tracks[i]);
            }
            proof {
                let full = self@.tracks;
                assert(full.subrange(0, i + 1 as int).drop_last() =~= full.subrange(0, i as int));
                assert(full.subrange(0, i + 1 as int).last() == self.tracks@[i as int]@);
                assert(track_refs_view(out@) =~= tracks_of_kind(
                    full.subrange(0, i + 1 as int),
                    kind,
                ));
            }
        }
        proof {
            assert(self@.tracks.subrange(0, n as int) =~= self@.tracks);
        }
        out
    }
}

} // verus!
