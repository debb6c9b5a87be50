use vstd::prelude::*;

use crate::matroska::{track_refs_view, MatroskaTrack, TrackV};

verus! {

/// The decimal digit character for `d`.
pub open spec fn digit_char(d: nat) -> char {
    if d == 0 {
        '0'
    } else if d == 1 {
        '1'
    } else if d == 2 {
        '2'
    } else if d == 3 {
        '3'
    } else if d == 4 {
        '4'
    } else if d == 5 {
        '5'
    } else if d == 6 {
        '6'
    } else if d == 7 {
        '7'
    } else if d == 8 {
        '8'
    } else {
        '9'
    }
}

/// The decimal rendering of `n`, without leading zeros (a single `'0'` for
/// zero itself).
pub open spec fn dec_seq(n: nat) -> Seq<char>
    decreases n,
{
    if n < 10 {
        seq![digit_char(n)]
    } else {
        dec_seq(n / 10).push(digit_char(n % 10))
    }
}

/// The flag value written into an edit argument: `'1'` to set the default
/// flag, `'0'` to clear it.
pub open spec fn flag_char(set: bool) -> char {
    if set {
        '1'
    } else {
        '0'
    }
}

fn digit_str(d: usize) -> (r: &'static str)
    requires
        d < 10,
    ensures
        r@ == seq![digit_char(d as nat)],
{
    proof {
        reveal_strlit("0");
        reveal_strlit("1");
        reveal_strlit("2");
        reveal_strlit("3");
        reveal_strlit("4");
        reveal_strlit("5");
        reveal_strlit("6");
        reveal_strlit("7");
        reveal_strlit("8");
        reveal_strlit("9");
    }
    let r: &'static str = if d == 0 {
        "0"
    } else if d == 1 {
        "1"
    } else if d == 2 {
        "2"
    } else if d == 3 {
        "3"
    } else if d == 4 {
        "4"
    } else if d == 5 {
        "5"
    } else if d == 6 {
        "6"
    } else if d == 7 {
        "7"
    } else if d == 8 {
        "8"
    } else {
        "9"
    };
    proof {
        assert(r@ =~= seq![digit_char(d as nat)]);
    }
    r
}

/// Render `n` in decimal.
pub fn usize_to_string(n: usize) -> (s: String)
    ensures
        s@ == dec_seq(n as nat),
    decreases n,
{
    if n < 10 {
        digit_str(n).to_owned()
    } else {
        let mut s = usize_to_string(n / 10);
        s.append(digit_str(n % 10));
        proof {
            assert(s@ =~= dec_seq(n as nat));
        }
        s
    }
}

/// One "set the default flag" decision for one track, addressed by the
/// external 1-based track number.
#[derive(Debug, Clone, Copy, PartialEq, Eq, Structural)]
pub struct EditInstruction {
    pub track_number: usize,
    pub set_default: bool,
}

/// The mathematical value of an [`EditInstruction`].
pub ghost struct EditV {
    pub track_number: nat,
    pub set_default: bool,
}

impl View for EditInstruction {
    type V = EditV;

    open spec fn view(&self) -> EditV {
        EditV { track_number: self.track_number as nat, set_default: self.set_default }
    }
}

/// The edit values behind a sequence of instructions.
pub open spec fn edits_view(s: Seq<EditInstruction>) -> Seq<EditV> {
    s.map_values(|e: EditInstruction| e@)
}

/// Does this track match the target identity under the active key: the
/// selected language field equals the target's, and the optional names are
/// equal by value (absent matches only absent)?
pub open spec fn track_matches_target(
    t: TrackV,
    language: Seq<char>,
    name: Option<Seq<char>>,
    by_ietf: bool,
) -> bool {
    &&& if by_ietf {
        t.language_ietf == language
    } else {
        t.language == language
    }
    &&& t.name == name
}

/// The edit decisions for a file's tracks of one kind: exactly one per
/// track, in track order, setting the flag iff the track matches the target
/// identity, and addressed to external track number `id + 1`.
pub open spec fn edits_for_tracks(
    tracks: Seq<TrackV>,
    language: Seq<char>,
    name: Option<Seq<char>>,
    by_ietf: bool,
) -> Seq<EditV> {
    Seq::new(
        tracks.len(),
        |i: int|
            EditV {
                track_number: tracks[i].id + 1,
                set_default: track_matches_target(tracks[i], language, name, by_ietf),
            },
    )
}

/// The serialized form of one edit decision.
pub open spec fn edit_arg_string(e: EditV) -> Seq<char> {
    " --edit track:"@ + dec_seq(e.track_number) + " --set flag-default="@ + seq![
        flag_char(e.set_default),
    ]
}

/// The serialized form of a whole instruction list, in order.
pub open spec fn args_string(edits: Seq<EditV>) -> Seq<char>
    decreases edits.len(),
{
    if edits.len() == 0 {
        Seq::empty()
    } else {
        args_string(edits.drop_last()) + edit_arg_string(edits.last())
    }
}

fn generate_edits(
    tracks: &Vec<&MatroskaTrack>,
    language: &str,
    name: &Option<String>,
    by_ietf: bool,
) -> (r: Vec<EditInstruction>)
    requires
        forall|i: int| 0 <= i < tracks@.len() ==> (#[trigger] tracks@[i])@.id < usize::MAX,
    ensures
        edits_view(r@) == edits_for_tracks(
            track_refs_view(tracks@),
            language@,
            name.deep_view(),
            by_ietf,
        ),
{
    let target_lang: String = language.to_owned();
    let mut out: Vec<EditInstruction> = Vec::new();
    let n = tracks.len();
    for i in 0..n
        invariant
            n == tracks.len(),
            target_lang@ == language@,
            forall|j: int| 0 <= j < tracks@.len() ==> (#[trigger] tracks@[j])@.id < usize::MAX,
            out.len() == i,
            forall|j: int|
                0 <= j < i ==> #[trigger] out@[j]@ == edits_for_tracks(
                    track_refs_view(tracks@),
                    language@,
                    name.deep_view(),
                    by_ietf,
                )[j],
    {
        let t: &MatroskaTrack = tracks[i];
        let lang_eq = if by_ietf {
            t.language_ietf == target_lang
        } else {
            t.language == target_lang
        };
        let matches_target = lang_eq && crate::same::opt_string_eq(&t.name, name);
        out.push(EditInstruction { track_number: t.id + 1, set_default: matches_target });
    }
    proof {
        assert(edits_view(out@) =~= edits_for_tracks(
            track_refs_view(tracks@),
            language@,
            name.deep_view(),
            by_ietf,
        ));
    }
    out
}

/// The edit decisions for `tracks` against a target keyed by the short
/// language code: one instruction per track, flag set iff the track's short
/// code and name equal the target's.
pub fn generate_edits_by_language(
    tracks: &Vec<&MatroskaTrack>,
    language: &str,
    name: &Option<String>,
) -> (r: Vec<EditInstruction>)
    requires
        forall|i: int| 0 <= i < tracks@.len() ==> (#[trigger] tracks@[i])@.id < usize::MAX,
    ensures
        edits_view(r@) == edits_for_tracks(
            track_refs_view(tracks@),
            language@,
            name.deep_view(),
            false,
        ),
{
    generate_edits(tracks, language, name, false)
}

/// The edit decisions for `tracks` against a target keyed by the IETF tag.
pub fn generate_edits_by_language_ietf(
    tracks: &Vec<&MatroskaTrack>,
    language_ietf: &str,
    name: &Option<String>,
) -> (r: Vec<EditInstruction>)
    requires
        forall|i: int| 0 <= i < tracks@.len() ==> (#[trigger] tracks@[i])@.id < usize::MAX,
    ensures
        edits_view(r@) == edits_for_tracks(
            track_refs_view(tracks@),
            language_ietf@,
            name.deep_view(),
            true,
        ),
{
    generate_edits(tracks, language_ietf, name, true)
}

/// Generate the args with the language
pub fn generate_args_by_language(
    tracks: Vec<&MatroskaTrack>,
    language: &str,
    name: Option<String>,
) -> (r: String)
    requires
        forall|i: int| 0 <= i < tracks@.len() ==> (#[trigger] tracks@[i])@.id < usize::MAX,
    ensures
        r@ == args_string(
            edits_for_tracks(track_refs_view(tracks@), language@, name.deep_view(), false),
        ),
{
    let edits = generate_edits_by_language(&tracks, language, &name);
    serialize_edits(&edits)
}

/// Generate the args with the language ietf
pub fn generate_args_by_language_ietf(
    tracks: Vec<&MatroskaTrack>,
    language_ietf: &str,
    name: Option<String>,
) -> (r: String)
    requires
        forall|i: int| 0 <= i < tracks@.len() ==> (#[trigger] tracks@[i])@.id < usize::MAX,
    ensures
        r@ == args_string(
            edits_for_tracks(track_refs_view(tracks@), language_ietf@, name.deep_view(), true),
        ),
{
    let edits = generate_edits_by_language_ietf(&tracks, language_ietf, &name);
    serialize_edits(&edits)
}

/// Serialize an instruction list into the external-argument text form, one
/// ` --edit track:<n> --set flag-default=<0|1>` group per instruction.
pub fn serialize_edits(edits: &Vec<EditInstruction>) -> (s: String)
    ensures
        s@ == args_string(edits_view(edits@)),
{
    let mut s = String::new();
    let n = edits.len();
    for i in 0..n
        invariant
            n == edits.len(),
            s@ == args_string(edits_view(edits@).subrange(0, i as int)),
    {
        let e = edits[i];
        s.append(" --edit track:");
        let num = usize_to_string(e.track_number);
        s.append(num.as_str());
        s.append(" --set flag-default=");
        s.append(if e.set_default {
            "1"
        } else {
            "0"
        });
        proof {
            reveal_strlit("1");
            reveal_strlit("0");
            let full = edits_view(edits@);
            assert(full.subrange(0, i + 1 as int).drop_last() =~= full.subrange(0, i as int));
            assert(full.subrange(0, i + 1 as int).last() == edits@[i as int]@);
            assert(s@ =~= args_string(full.subrange(0, i + 1 as int)));
        }
    }
    proof {
        assert(edits_view(edits@).subrange(0, n as int) =~= edits_view(edits@));
    }
    s
}

/// The four external-command words for one edit decision.
pub open spec fn edit_cmd_words(e: EditV) -> Seq<Seq<char>> {
    seq![
        "--edit"@,
        "track:"@ + dec_seq(e.track_number),
        "--set"@,
        "flag-default="@ + seq![flag_char(e.set_default)],
    ]
}

/// The external-command words of a whole instruction list, in order.
pub open spec fn cmd_words(edits: Seq<EditV>) -> Seq<Seq<char>>
    decreases edits.len(),
{
    if edits.len() == 0 {
        Seq::empty()
    } else {
        cmd_words(edits.drop_last()) + edit_cmd_words(edits.last())
    }
}

/// The full argument list of one mutation invocation: the file path first,
/// then the audio edits' words in order, then the subtitle edits' words.
pub open spec fn command_args_spec(
    path: Seq<char>,
    audio: Seq<EditV>,
    subtitles: Seq<EditV>,
) -> Seq<Seq<char>> {
    seq![path] + cmd_words(audio) + cmd_words(subtitles)
}

/// The character sequences behind a list of argument strings.
pub open spec fn strings_view(s: Seq<String>) -> Seq<Seq<char>> {
    s.map_values(|x: String| x@)
}

/// Assemble the ordered argument list for invoking the external mutation
/// tool on one file: path first, then the audio edit arguments, then the
/// subtitle edit arguments.
pub fn command_args(
    path: &str,
    audio: &Vec<EditInstruction>,
    subtitles: &Vec<EditInstruction>,
) -> (r: Vec<String>)
    ensures
        strings_view(r@) == command_args_spec(
            path@,
            edits_view(audio@),
            edits_view(subtitles@),
        ),
{
    let mut out: Vec<String> = Vec::new();
    out.push(path.to_owned());
    proof {
        assert(strings_view(out@) =~~= seq![path@]);
    }
    push_cmd_words(&mut out, audio);
    push_cmd_words(&mut out, subtitles);
    proof {
        assert(strings_view(out@) =~~= command_args_spec(
            path@,
            edits_view(audio@),
            edits_view(subtitles@),
        ));
    }
    out
}

fn push_cmd_words(out: &mut Vec<String>, edits: &Vec<EditInstruction>)
    ensures
        strings_view(final(out)@) == strings_view(old(out)@) + cmd_words(edits_view(edits@)),
{
    let ghost base = strings_view(out@);
    let n = edits.len();
    for i in 0..n
        invariant
            n == edits.len(),
            base == strings_view(old(out)@),
            strings_view(out@) == base + cmd_words(edits_view(edits@).subrange(0, i as int)),
    {
        let e = edits[i];
        let edit_word: String = "--edit".to_owned();
        let mut track_word: String = "track:".to_owned();
        let num = usize_to_string(e.track_number);
        track_word.append(num.as_str());
        let set_word: String = "--set".to_owned();
        let mut flag_word: String = "flag-default=".to_owned();
        flag_word.append(if e.set_default {
            "1"
        } else {
            "0"
        });
        proof {
            reveal_strlit("1");
            reveal_strlit("0");
            assert(edit_word@ == edit_cmd_words(e@)[0]);
            assert(track_word@ == edit_cmd_words(e@)[1]);
            assert(set_word@ == edit_cmd_words(e@)[2]);
            assert(flag_word@ =~= "flag-default="@ + seq![flag_char(e@.set_default)]);
            assert(flag_word@ == edit_cmd_words(e@)[3]);
        }
        out.push(edit_word);
        out.push(track_word);
        out.push(set_word);
        out.push(flag_word);
        proof {
            broadcast use vstd::prelude::Seq::lemma_push_map_commute;

            let full = edits_view(edits@);
            assert(full.subrange(0, i + 1 as int).drop_last() =~= full.subrange(0, i as int));
            assert(full.subrange(0, i + 1 as int).last() == edits@[i as int]@);
            assert(cmd_words(full.subrange(0, i + 1 as int)) == cmd_words(
                full.subrange(0, i as int),
            ) + edit_cmd_words(e@));
            assert(strings_view(out@) =~= base + cmd_words(full.subrange(0, i + 1 as int)));
        }
    }
    proof {
        assert(edits_view(edits@).subrange(0, n as int) =~= edits_view(edits@));
    }
}

/// The outcome of one file's mutation invocation: success, or failure with
/// the file path and the tool's diagnostic text.
#[derive(Debug)]
pub enum ResultCommand {
    Success(String),
    Error(String, String),
}

/// The readable report line for one outcome.
pub open spec fn result_message(r: ResultCommand) -> Seq<char> {
    match r {
        ResultCommand::Success(path) => "Success "@ + path@,
        ResultCommand::Error(path, err) => "Error "@ + path@ + " ("@ + err@ + ")"@,
    }
}

impl ResultCommand {
    /// Render this outcome as its report line.
    pub fn message(&self) -> (s: String)
        ensures
            s@ == result_message(*self),
    {
        match self {
            ResultCommand::Success(path) => {
                let mut s: String = "Success ".to_owned();
                s.append(path.as_str());
                s
            },
            ResultCommand::Error(path, err) => {
                let mut s: String = "Error ".to_owned();
                s.append(path.as_str());
                s.append(" (");
                s.append(err.as_str());
                s.append(")");
                s
            },
        }
    }
}

} // verus!
