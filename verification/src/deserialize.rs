use vstd::prelude::*;

use crate::matroska::{MatroskaTrackType, TrackV};

verus! {

/// The metadata record for one file, as the external metadata extractor
/// reports it: a list of track descriptors.
#[derive(Debug)]
pub struct DeserializeMatroska {
    pub tracks: Vec<DeserializeMatroskaTrack>,
}

/// One track descriptor of the metadata record.
#[derive(Debug, Clone)]
pub struct DeserializeMatroskaTrack {
    pub id: usize,
    pub type_: DeserializeMatroskaTrackType,
    pub properties: DeserializeMatroskaTrackProperties,
}

/// The identity-relevant properties of one track descriptor. A missing
/// `language_ietf` stands for an undetermined IETF tag.
#[derive(Debug, Clone)]
pub struct DeserializeMatroskaTrackProperties {
    pub default_track: bool,
    pub track_name: Option<String>,
    pub language: String,
    pub language_ietf: Option<String>,
}

#[derive(Debug, Clone, Copy, PartialEq, Eq, Structural)]
pub enum DeserializeMatroskaTrackType {
    Audio,
    Video,
    Subtitles,
}

/// The mathematical value of a [`DeserializeMatroskaTrack`].
pub ghost struct TrackRecordV {
    pub id: nat,
    pub type_: DeserializeMatroskaTrackType,
    pub default_track: bool,
    pub track_name: Option<Seq<char>>,
    pub language: Seq<char>,
    pub language_ietf: Option<Seq<char>>,
}

impl View for DeserializeMatroskaTrack {
    type V = TrackRecordV;

    open spec fn view(&self) -> TrackRecordV {
        TrackRecordV {
            id: self.id as nat,
            type_: self.type_,
            default_track: self.properties.default_track,
            track_name: self.properties.track_name.deep_view(),
            language: self.properties.language@,
            language_ietf: self.properties.language_ietf.deep_view(),
        }
    }
}

impl View for DeserializeMatroska {
    type V = Seq<TrackRecordV>;

    open spec fn view(&self) -> Seq<TrackRecordV> {
        self.tracks@.map_values(|t: DeserializeMatroskaTrack| t@)
    }
}

/// The track that one metadata record describes: field for field, with the
/// record's kind tag mapped to the track kind and a missing IETF tag
/// normalized to the sentinel `"und"`.
pub open spec fn track_of_record(r: TrackRecordV) -> TrackV {
    TrackV {
        id: r.id,
        name: r.track_name,
        type_: match r.type_ {
            DeserializeMatroskaTrackType::Audio => MatroskaTrackType::Audio,
            DeserializeMatroskaTrackType::Video => MatroskaTrackType::Video,
            DeserializeMatroskaTrackType::Subtitles => MatroskaTrackType::Subtitles,
        },
        default: r.default_track,
        language: r.language,
        language_ietf: match r.language_ietf {
            Some(l) => l,
            None => "und"@,
        },
    }
}

} // verus!
