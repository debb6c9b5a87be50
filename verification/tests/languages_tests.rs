use mkv_same::languages::{
    get_same_languages, get_same_languages_ietf, get_tracks_languages, get_tracks_languages_ieft,
    merge_same,
};
use mkv_same::matroska::{Matroska, MatroskaTrack, MatroskaTrackType};
use mkv_same::same::Same;

fn track(
    id: usize,
    name: Option<&str>,
    type_: MatroskaTrackType,
    language: &str,
    language_ietf: &str,
) -> MatroskaTrack {
    MatroskaTrack {
        id,
        name: name.map(|n| n.to_string()),
        type_,
        default: false,
        language: language.to_string(),
        language_ietf: language_ietf.to_string(),
    }
}

#[test]
fn test_get_tracks_languages_ieft() {
    let tracks = vec![
        track(1, Some("Track 1"), MatroskaTrackType::Audio, "eng", "en"),
        track(2, Some("Track 2"), MatroskaTrackType::Video, "fre", "fr"),
        track(3, Some("Track 3"), MatroskaTrackType::Subtitles, "ger", "und"),
    ];
    let tracks: Vec<&MatroskaTrack> = tracks.iter().collect();

    let result = get_tracks_languages_ieft(tracks);
    let expected = vec![
        Same {
            language: "eng".to_owned(),
            language_ietf: "en".to_owned(),
            name: Some("Track 1".to_string()),
        },
        Same {
            language: "fre".to_owned(),
            language_ietf: "fr".to_owned(),
            name: Some("Track 2".to_string()),
        },
    ];
    assert_eq!(result, expected);
}

#[test]
fn test_get_tracks_languages() {
    let tracks = vec![
        track(1, Some("Track 1"), MatroskaTrackType::Audio, "eng", "en"),
        track(2, Some("Track 2"), MatroskaTrackType::Video, "fre", "fr"),
        track(3, Some("Track 3"), MatroskaTrackType::Subtitles, "und", "ge"),
    ];
    let tracks: Vec<&MatroskaTrack> = tracks.iter().collect();

    let result = get_tracks_languages(tracks);
    let expected = vec![
        Same {
            language: "eng".to_owned(),
            language_ietf: "en".to_owned(),
            name: Some("Track 1".to_string()),
        },
        Same {
            language: "fre".to_owned(),
            language_ietf: "fr".to_owned(),
            name: Some("Track 2".to_string()),
        },
    ];
    assert_eq!(result, expected);
}

fn two_file_batch() -> Vec<Matroska> {
    vec![
        Matroska {
            path: "test1.mkv".to_string(),
            tracks: vec![
                track(1, Some("Track 1"), MatroskaTrackType::Audio, "eng", "en"),
                track(2, None, MatroskaTrackType::Audio, "fre", "fr"),
                track(3, Some("Track 3"), MatroskaTrackType::Subtitles, "ger", "de"),
            ],
        },
        Matroska {
            path: "test2.mkv".to_string(),
            tracks: vec![
                track(1, Some("Track 1"), MatroskaTrackType::Audio, "eng", "en"),
                track(2, None, MatroskaTrackType::Audio, "fre", "fr"),
                track(3, Some("Track 3"), MatroskaTrackType::Subtitles, "spa", "es"),
            ],
        },
    ]
}

#[test]
fn test_get_same_languages_ietf() {
    let mkvs = two_file_batch();
    let track_type = MatroskaTrackType::Audio;
    let result = get_same_languages_ietf(&mkvs, track_type);
    let expected = vec![
        Same {
            language: "eng".to_string(),
            language_ietf: "en".to_string(),
            name: Some("Track 1".to_string()),
        },
        Same {
            language: "fre".to_string(),
            language_ietf: "fr".to_string(),
            name: None,
        },
    ];
    assert_eq!(result, expected);
}

#[test]
fn test_get_same_languages() {
    let mkvs = two_file_batch();
    let track_type = MatroskaTrackType::Audio;
    let result = get_same_languages(&mkvs, track_type);
    let expected = vec![
        Same {
            language: "eng".to_string(),
            language_ietf: "en".to_string(),
            name: Some("Track 1".to_string()),
        },
        Same {
            language: "fre".to_string(),
            language_ietf: "fr".to_string(),
            name: None,
        },
    ];
    assert_eq!(result, expected);
}

#[test]
fn test_same_languages_empty_batch() {
    let mkvs: Vec<Matroska> = vec![];
    assert!(get_same_languages(&mkvs, MatroskaTrackType::Audio).is_empty());
    assert!(get_same_languages_ietf(&mkvs, MatroskaTrackType::Audio).is_empty());
}

#[test]
fn test_same_languages_empty_file_kills_intersection() {
    // The second file has no subtitle tracks at all, so the subtitle
    // intersection must come out empty even though a third file would
    // match the first again.
    let mkvs = vec![
        Matroska {
            path: "a.mkv".to_string(),
            tracks: vec![track(1, None, MatroskaTrackType::Subtitles, "eng", "en")],
        },
        Matroska {
            path: "b.mkv".to_string(),
            tracks: vec![track(1, None, MatroskaTrackType::Audio, "eng", "en")],
        },
        Matroska {
            path: "c.mkv".to_string(),
            tracks: vec![track(1, None, MatroskaTrackType::Subtitles, "eng", "en")],
        },
    ];
    let result = get_same_languages(&mkvs, MatroskaTrackType::Subtitles);
    assert!(result.is_empty());
}

#[test]
fn test_same_languages_full_identity_equality() {
    // Two files whose audio tracks agree on language and name but differ in
    // the IETF tag share no identity: retention compares all three fields,
    // so the common set is empty either way round.
    let mkvs = vec![
        Matroska {
            path: "a.mkv".to_string(),
            tracks: vec![track(1, None, MatroskaTrackType::Audio, "eng", "en")],
        },
        Matroska {
            path: "b.mkv".to_string(),
            tracks: vec![track(1, None, MatroskaTrackType::Audio, "eng", "en-US")],
        },
    ];
    assert!(get_same_languages(&mkvs, MatroskaTrackType::Audio).is_empty());
    let reversed: Vec<Matroska> = mkvs.into_iter().rev().collect();
    assert!(get_same_languages(&reversed, MatroskaTrackType::Audio).is_empty());
}

#[test]
fn test_same_languages_batch_order_membership() {
    // Reversing the batch keeps the same members in the common set.
    let mkvs = two_file_batch();
    let reversed: Vec<Matroska> = {
        let mut v = two_file_batch();
        v.reverse();
        v
    };
    let forward = get_same_languages(&mkvs, MatroskaTrackType::Audio);
    let backward = get_same_languages(&reversed, MatroskaTrackType::Audio);
    assert_eq!(forward.len(), backward.len());
    for s in &forward {
        assert!(backward.contains(s));
    }
    for s in &backward {
        assert!(forward.contains(s));
    }
}

#[test]
fn test_three_files_single_common_audio() {
    // Three files, each with one audio track {eng, en, no name}: the
    // short-code common set holds that single identity, and merging with
    // the IETF common set keeps it a single-element list.
    let file = |path: &str| Matroska {
        path: path.to_string(),
        tracks: vec![track(0, None, MatroskaTrackType::Audio, "eng", "en")],
    };
    let mkvs = vec![file("one.mkv"), file("two.mkv"), file("three.mkv")];
    let short = get_same_languages(&mkvs, MatroskaTrackType::Audio);
    let ietf = get_same_languages_ietf(&mkvs, MatroskaTrackType::Audio);
    let expected = vec![Same {
        language: "eng".to_string(),
        language_ietf: "en".to_string(),
        name: None,
    }];
    assert_eq!(short, expected);
    let merged = merge_same(short, ietf);
    assert_eq!(merged, expected);
}

#[test]
fn test_und_ietf_track_kept_in_short_list() {
    // A track whose IETF tag is "und" is excluded from the IETF identity
    // list but still appears in the short-code list; one whose short code
    // is also "und" appears in neither.
    let tracks = vec![
        track(1, Some("Main"), MatroskaTrackType::Audio, "ger", "und"),
        track(2, None, MatroskaTrackType::Audio, "und", "und"),
    ];
    let refs: Vec<&MatroskaTrack> = tracks.iter().collect();
    let ietf = get_tracks_languages_ieft(refs);
    assert!(ietf.is_empty());
    let refs: Vec<&MatroskaTrack> = tracks.iter().collect();
    let short = get_tracks_languages(refs);
    assert_eq!(
        short,
        vec![Same {
            language: "ger".to_string(),
            language_ietf: "und".to_string(),
            name: Some("Main".to_string()),
        }]
    );
}

#[test]
fn test_merge_same_idempotent() {
    let set = vec![
        Same::new("eng", "en", Some("Main".to_owned())),
        Same::new("fre", "fr", None),
    ];
    let merged = merge_same(set.clone(), set.clone());
    assert_eq!(merged, set);
}

#[test]
fn test_merge_same_left_biased() {
    // "fre"/"fr" appears in both sets: it stays exactly once, at its
    // position in the short-code set; the IETF-only entry is appended.
    let short = vec![
        Same::new("eng", "en", None),
        Same::new("fre", "fr", None),
    ];
    let ietf = vec![
        Same::new("fre", "fr", None),
        Same::new("spa", "es", None),
    ];
    let merged = merge_same(short, ietf);
    let expected = vec![
        Same::new("eng", "en", None),
        Same::new("fre", "fr", None),
        Same::new("spa", "es", None),
    ];
    assert_eq!(merged, expected);
}
