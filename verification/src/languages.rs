use vstd::prelude::*;

use crate::matroska::{
    tracks_of_kind, track_refs_view, Matroska, MatroskaTrack, MatroskaTrackType, MatroskaV, TrackV,
};
use crate::same::{same_eq, Same, SameV};

verus! {

/// The sentinel language value meaning "undetermined".
pub open spec fn und() -> Seq<char> {
    "und"@
}

/// The identity a track contributes to cross-file matching: its two language
/// fields and its optional name, without the track id.
pub open spec fn ident_of(t: TrackV) -> SameV {
    SameV { language: t.language, language_ietf: t.language_ietf, name: t.name }
}

/// The identity list of a sequence of tracks for one representation: one
/// identity per track, in track order, excluding every track whose selected
/// language field is the sentinel. Duplicates are kept.
pub open spec fn idents_of_tracks(tracks: Seq<TrackV>, by_ietf: bool) -> Seq<SameV>
    decreases tracks.len(),
{
    if tracks.len() == 0 {
        Seq::empty()
    } else {
        let rest = idents_of_tracks(tracks.drop_last(), by_ietf);
        let sel = if by_ietf {
            tracks.last().language_ietf
        } else {
            tracks.last().language
        };
        if sel != und() {
            rest.push(ident_of(tracks.last()))
        } else {
            rest
        }
    }
}

/// The entries of `acc` for which at least one identity in `file` is equal
/// by full three-field equality, in `acc`'s order.
pub open spec fn retain_matching(acc: Seq<SameV>, file: Seq<SameV>) -> Seq<SameV>
    decreases acc.len(),
{
    if acc.len() == 0 {
        Seq::empty()
    } else {
        let rest = retain_matching(acc.drop_last(), file);
        if contains_ident(file, acc.last()) {
            rest.push(acc.last())
        } else {
            rest
        }
    }
}

/// The identities common to every identity list of `files`: the first list,
/// progressively filtered by full-equality membership in each later list.
/// An empty batch gives an empty result, and once the running result is
/// empty it stays so.
pub open spec fn common_idents(files: Seq<Seq<SameV>>) -> Seq<SameV>
    decreases files.len(),
{
    if files.len() == 0 {
        Seq::empty()
    } else if files.len() == 1 {
        files[0]
    } else {
        retain_matching(common_idents(files.drop_last()), files.last())
    }
}

/// The identity list one file contributes for a track kind and a
/// representation.
pub open spec fn file_idents(m: MatroskaV, kind: MatroskaTrackType, by_ietf: bool) -> Seq<SameV> {
    idents_of_tracks(tracks_of_kind(m.tracks, kind), by_ietf)
}

/// The identity lists of a whole batch, file by file.
pub open spec fn batch_idents(
    mkvs: Seq<Matroska>,
    kind: MatroskaTrackType,
    by_ietf: bool,
) -> Seq<Seq<SameV>> {
    mkvs.map_values(|m: Matroska| file_idents(m@, kind, by_ietf))
}

/// The identity values behind a sequence of [`Same`] entries.
pub open spec fn sames_view(s: Seq<Same>) -> Seq<SameV> {
    s.map_values(|x: Same| x@)
}

/// Does some entry of `s` equal `x` by full three-field equality?
pub open spec fn contains_ident(s: Seq<SameV>, x: SameV) -> bool {
    exists|j: int| 0 <= j < s.len() && same_eq(s[j], x)
}

/// The entries of `b` not already present (by full equality) in `a`, in
/// `b`'s order.
pub open spec fn merge_extra(a: Seq<SameV>, b: Seq<SameV>) -> Seq<SameV>
    decreases b.len(),
{
    if b.len() == 0 {
        Seq::empty()
    } else {
        let rest = merge_extra(a, b.drop_last());
        if !contains_ident(a, b.last()) {
            rest.push(b.last())
        } else {
            rest
        }
    }
}

/// The ordered union of two identity lists: all of `a` in its order, then
/// the entries of `b` that are not already present in `a`, in `b`'s order.
/// `a` takes precedence for both membership and position.
pub open spec fn merge_idents(a: Seq<SameV>, b: Seq<SameV>) -> Seq<SameV> {
    a + merge_extra(a, b)
}

/// Is this string the undetermined-language sentinel?
fn is_und(s: &String) -> (r: bool)
    ensures
        r == (s@ == und()),
{
    let u: String = "und".to_owned();
    *s == u
}

/// Get the tracks with the language field for the Same struct
pub fn get_tracks_languages(tracks: Vec<&MatroskaTrack>) -> (r: Vec<Same>)
    ensures
        sames_view(r@) == idents_of_tracks(track_refs_view(tracks@), false),
{
    collect_idents(&tracks, false)
}

/// Get the tracks with the language_ieft field for the Same struct
pub fn get_tracks_languages_ieft(tracks: Vec<&MatroskaTrack>) -> (r: Vec<Same>)
    ensures
        sames_view(r@) == idents_of_tracks(track_refs_view(tracks@), true),
{
    collect_idents(&tracks, true)
}

fn collect_idents(tracks: &Vec<&MatroskaTrack>, by_ietf: bool) -> (r: Vec<Same>)
    ensures
        sames_view(r@) == idents_of_tracks(track_refs_view(tracks@), by_ietf),
{
    let mut out: Vec<Same> = Vec::new();
    let n = tracks.len();
    for i in 0..n
        invariant
            n == tracks.len(),
            sames_view(out@) == idents_of_tracks(
                track_refs_view(tracks@).subrange(0, i as int),
                by_ietf,
            ),
    {
        let t: &MatroskaTrack = tracks[i];
        let sel: &String = if by_ietf {
            &t.language_ietf
        } else {
            &t.language
        };
        if !is_und(sel) {
            let name = match &t.name {
                Some(nm) => Some(nm.clone()),
                None => None,
            };
            out.push(Same::new(t.language.as_str(), t.language_ietf.as_str(), name));
        }
        proof {
            let full = track_refs_view(tracks@);
            assert(full.subrange(0, i + 1 as int).drop_last() =~= full.subrange(0, i as int));
            assert(full.subrange(0, i + 1 as int).last() == tracks@[i as int]@);
            assert(sames_view(out@) =~= idents_of_tracks(
                full.subrange(0, i + 1 as int),
                by_ietf,
            ));
        }
    }
    proof {
        assert(track_refs_view(tracks@).subrange(0, n as int) =~= track_refs_view(tracks@));
    }
    out
}

fn retain_same(acc: Vec<Same>, file: &Vec<Same>) -> (r: Vec<Same>)
    ensures
        sames_view(r@) == retain_matching(sames_view(acc@), sames_view(file@)),
{
    let mut out: Vec<Same> = Vec::new();
    let n = acc.len();
    for i in 0..n
        invariant
            n == acc.len(),
            sames_view(out@) == retain_matching(
                sames_view(acc@).subrange(0, i as int),
                sames_view(file@),
            ),
    {
        if contains_same(file, &acc[i]) {
            out.push(acc[i].clone());
        }
        proof {
            let full = sames_view(acc@);
            assert(full.subrange(0, i + 1 as int).drop_last() =~= full.subrange(0, i as int));
            assert(full.subrange(0, i + 1 as int).last() == acc@[i as int]@);
            assert(sames_view(out@) =~= retain_matching(
                full.subrange(0, i + 1 as int),
                sames_view(file@),
            ));
        }
    }
    proof {
        assert(sames_view(acc@).subrange(0, n as int) =~= sames_view(acc@));
    }
    out
}

/// Get the same languages
pub fn get_same_languages(mkvs: &Vec<Matroska>, track_type: MatroskaTrackType) -> (r: Vec<Same>)
    ensures
        sames_view(r@) == common_idents(batch_idents(mkvs@, track_type, false)),
{
    same_languages_by(mkvs, track_type, false)
}

/// Get the same languages_ietf
pub fn get_same_languages_ietf(mkvs: &Vec<Matroska>, track_type: MatroskaTrackType) -> (r: Vec<
    Same,
>)
    ensures
        sames_view(r@) == common_idents(batch_idents(mkvs@, track_type, true)),
{
    same_languages_by(mkvs, track_type, true)
}

fn same_languages_by(mkvs: &Vec<Matroska>, track_type: MatroskaTrackType, by_ietf: bool) -> (r:
    Vec<Same>)
    ensures
        sames_view(r@) == common_idents(batch_idents(mkvs@, track_type, by_ietf)),
{
    let ghost files = batch_idents(mkvs@, track_type, by_ietf);
    let mut output: Vec<Same> = Vec::new();
    let n = mkvs.len();
    for idx in 0..n
        invariant
            n == mkvs.len(),
            files == batch_idents(mkvs@, track_type, by_ietf),
            sames_view(output@) == common_idents(files.subrange(0, idx as int)),
    {
        let tracks: Vec<&MatroskaTrack> = match track_type {
            MatroskaTrackType::Audio => mkvs[idx].get_audios(),
            MatroskaTrackType::Video => mkvs[idx].get_videos(),
            MatroskaTrackType::Subtitles => mkvs[idx].get_subtitles(),
        };
        let idents = collect_idents(&tracks, by_ietf);
        proof {
            assert(files[idx as int] == file_idents(mkvs@[idx as int]@, track_type, by_ietf));
            assert(sames_view(idents@) == files[idx as int]);
        }
        if idx == 0 {
            output = idents;
        } else {
            output = retain_same(output, &idents);
        }
        proof {
            let cur = files.subrange(0, idx + 1 as int);
            assert(cur.drop_last() =~= files.subrange(0, idx as int));
            assert(cur.last() == files[idx as int]);
            assert(sames_view(output@) == common_idents(cur));
        }
    }
    proof {
        assert(files.subrange(0, n as int) =~= files);
    }
    output
}

/// Does some entry of `v` equal `x` by full three-field equality?
fn contains_same(v: &Vec<Same>, x: &Same) -> (r: bool)
    ensures
        r == contains_ident(sames_view(v@), x@),
{
    let n = v.len();
    for i in 0..n
        invariant
            n == v.len(),
            forall|j: int| 0 <= j < i ==> !same_eq(#[trigger] sames_view(v@)[j], x@),
    {
        if v[i] == *x {
            proof {
                assert(same_eq(sames_view(v@)[i as int], x@));
            }
            return true;
        }
    }
    false
}

/// Union the short-code common set with the IETF common set: all of `short`
/// in its order, then the entries of `ietf` not already present in `short`,
/// in their order. Membership is full three-field identity equality, so the
/// short-code set takes precedence for both membership and position.
pub fn merge_same(short: Vec<Same>, ietf: Vec<Same>) -> (r: Vec<Same>)
    ensures
        sames_view(r@) == merge_idents(sames_view(short@), sames_view(ietf@)),
{
    let ghost a = sames_view(short@);
    let mut extra: Vec<Same> = Vec::new();
    let n = ietf.len();
    for i in 0..n
        invariant
            n == ietf.len(),
            a == sames_view(short@),
            sames_view(extra@) == merge_extra(a, sames_view(ietf@).subrange(0, i as int)),
    {
        if !contains_same(&short, &ietf[i]) {
            extra.push(ietf[i].clone());
        }
        proof {
            let full = sames_view(ietf@);
            assert(full.subrange(0, i + 1 as int).drop_last() =~= full.subrange(0, i as int));
            assert(full.subrange(0, i + 1 as int).last() == ietf@[i as int]@);
            assert(sames_view(extra@) =~= merge_extra(a, full.subrange(0, i + 1 as int)));
        }
    }
    proof {
        assert(sames_view(ietf@).subrange(0, n as int) =~= sames_view(ietf@));
    }
    let mut out = short;
    let m = extra.len();
    for k in 0..m
        invariant
            m == extra.len(),
            sames_view(extra@) == merge_extra(a, sames_view(ietf@)),
            a == sames_view(short@),
            sames_view(out@) == a + sames_view(extra@).subrange(0, k as int),
    {
        out.push(extra[k].clone());
        proof {
            let sub1 = sames_view(extra@).subrange(0, k + 1 as int);
            let sub0 = sames_view(extra@).subrange(0, k as int);
            assert(sub1.drop_last() =~= sub0);
            assert(sub1.last() == extra@[k as int]@);
            assert(a + sub1 =~= (a + sub0).push(extra@[k as int]@));
            assert(sames_view(out@) =~= (a + sub0).push(extra@[k as int]@));
        }
    }
    proof {
        assert(sames_view(extra@).subrange(0, m as int) =~= sames_view(extra@));
        assert(sames_view(out@) == merge_idents(sames_view(short@), sames_view(ietf@)));
    }
    out
}

} // verus!
