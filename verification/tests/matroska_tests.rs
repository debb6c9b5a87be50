use mkv_same::matroska::{Matroska, MatroskaTrack, MatroskaTrackType};

fn unnamed_track(id: usize, type_: MatroskaTrackType) -> MatroskaTrack {
    MatroskaTrack {
        id,
        name: None,
        type_,
        default: false,
        language: "".to_string(),
        language_ietf: "".to_string(),
    }
}

#[test]
fn test_matroska_track_is_video() {
    let track = unnamed_track(1, MatroskaTrackType::Video);
    assert!(track.is_video());
}

#[test]
fn test_matroska_track_is_audio() {
    let track = unnamed_track(1, MatroskaTrackType::Audio);
    assert!(track.is_audio());
}

#[test]
fn test_matroska_track_is_subtitle() {
    let track = unnamed_track(1, MatroskaTrackType::Subtitles);
    assert!(track.is_subtitle());
}

#[test]
fn test_matroska_get_videos() {
    let matroska = Matroska {
        path: "test.mkv".to_string(),
        tracks: vec![
            unnamed_track(1, MatroskaTrackType::Video),
            unnamed_track(2, MatroskaTrackType::Audio),
            unnamed_track(3, MatroskaTrackType::Video),
        ],
    };
    let videos = matroska.get_videos();
    assert_eq!(videos.len(), 2);
    assert_eq!(videos[0].id, 1);
    assert_eq!(videos[1].id, 3);
}

#[test]
fn test_matroska_get_audios() {
    let matroska = Matroska {
        path: "test.mkv".to_string(),
        tracks: vec![
            unnamed_track(1, MatroskaTrackType::Audio),
            unnamed_track(2, MatroskaTrackType::Video),
            unnamed_track(3, MatroskaTrackType::Audio),
        ],
    };
    let audios = matroska.get_audios();
    assert_eq!(audios.len(), 2);
    assert_eq!(audios[0].id, 1);
    assert_eq!(audios[1].id, 3);
}

#[test]
fn test_matroska_get_subtitles() {
    let matroska = Matroska {
        path: "test.mkv".to_string(),
        tracks: vec![
            unnamed_track(1, MatroskaTrackType::Subtitles),
            unnamed_track(2, MatroskaTrackType::Video),
            unnamed_track(3, MatroskaTrackType::Subtitles),
        ],
    };
    let subtitles = matroska.get_subtitles();
    assert_eq!(subtitles.len(), 2);
    assert_eq!(subtitles[0].id, 1);
    assert_eq!(subtitles[1].id, 3);
}

#[test]
fn test_matroska_track_is_video_false() {
    let track = unnamed_track(1, MatroskaTrackType::Audio);
    assert!(!track.is_video());
}

#[test]
fn test_matroska_track_is_audio_false() {
    let track = unnamed_track(1, MatroskaTrackType::Video);
    assert!(!track.is_audio());
}

#[test]
fn test_matroska_track_is_subtitle_false() {
    let track = unnamed_track(1, MatroskaTrackType::Audio);
    assert!(!track.is_subtitle());
}

#[test]
fn test_matroska_get_videos_empty() {
    let matroska = Matroska {
        path: "test.mkv".to_string(),
        tracks: vec![
            unnamed_track(1, MatroskaTrackType::Audio),
            unnamed_track(2, MatroskaTrackType::Subtitles),
        ],
    };
    let videos = matroska.get_videos();
    assert_eq!(videos.len(), 0);
}

#[test]
fn test_matroska_get_audios_empty() {
    let matroska = Matroska {
        path: "test.mkv".to_string(),
        tracks: vec![
            unnamed_track(1, MatroskaTrackType::Video),
            unnamed_track(2, MatroskaTrackType::Subtitles),
        ],
    };
    let audios = matroska.get_audios();
    assert_eq!(audios.len(), 0);
}

#[test]
fn test_matroska_get_subtitles_empty() {
    let matroska = Matroska {
        path: "test.mkv".to_string(),
        tracks: vec![
            unnamed_track(1, MatroskaTrackType::Video),
            unnamed_track(2, MatroskaTrackType::Audio),
        ],
    };
    let subtitles = matroska.get_subtitles();
    assert_eq!(subtitles.len(), 0);
}
