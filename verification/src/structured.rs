//! A structured (JSON) screenplay from a language model, and the draft it
//! becomes: acts and shots numbered where the model left ids out, shot
//! notes assembled from characters, sound and dialogue, and a cast list
//! counting the shots each character appears in.

use vstd::prelude::*;
use crate::draft::{
    legacy_draft_spec, legacy_previewable, legacy_screenplay_from_text, logline_previewable, logline_spec, standard_defaults, standard_prompt_defaults, ActV,
    CharacterV, DraftV, ScreenplayAct, ScreenplayCharacter, ScreenplayDraft, ScreenplayShot,
    ShotV, DEFAULT_SHOT_SECONDS_BITS,
};
use crate::json::{is_nan_bits, view_entries, Json, JsonValue};
use crate::ids::{parse_uuid, parsed_uuid};
use crate::screenplay::{
    clean_spec, extract_draft_metadata, metadata_spec, opt_string_view, strings_view,
    LlmScreenplayDraft,
};
use crate::sorted::{sort_dedup, sorted_unique};
use crate::text::{
    cat, cat3, chars_of, concat_chars, eq_ignore_case, eq_ignore_case_lit, nat_decimal, string_of, trim,
    trim_vec, u64_decimal_string,
};

verus! {

/// A double as the parser read it: its bit pattern, and the bit pattern of
/// the single-precision value it rounds to.
#[derive(Clone, Copy, Debug, PartialEq, Eq)]
pub struct DoubleBits {
    pub bits: u64,
    pub narrowed: u32,
}

/// A line of dialogue.
pub struct StructuredDialogueLine {
    pub character: Option<String>,
    pub line: Option<String>,
}

/// The sound of a shot.
pub struct StructuredSound {
    pub music: Option<String>,
    pub fx: Option<String>,
    pub dialogue: Vec<StructuredDialogueLine>,
}

/// The camera of a shot.
pub struct StructuredCamera {
    pub movement: Option<String>,
    pub angle: Option<String>,
}

/// The generation workflow a shot asks for.
pub struct StructuredWorkflow {
    pub key: Option<String>,
    pub id: Option<String>,
    pub inputs: Option<Vec<(String, JsonValue)>>,
}

/// A shot of a structured screenplay.
pub struct StructuredShot {
    pub id: Option<u32>,
    pub title: Option<String>,
    pub visual_description: Option<String>,
    pub location: Option<String>,
    pub characters: Vec<String>,
    pub duration: Option<DoubleBits>,
    pub camera: Option<StructuredCamera>,
    pub sound: Option<StructuredSound>,
    pub workflow: Option<StructuredWorkflow>,
}

/// An act of a structured screenplay.
pub struct StructuredAct {
    pub id: Option<u32>,
    pub title: Option<String>,
    pub summary: Option<String>,
    pub shots: Vec<StructuredShot>,
}

/// A structured screenplay, as the model's JSON gives it.
pub struct StructuredScreenplay {
    pub title: Option<String>,
    pub genre: Option<String>,
    pub duration: Option<DoubleBits>,
    pub synopsis: Option<String>,
    pub acts: Vec<StructuredAct>,
}

/// `d <= 0.0` for the double of bit pattern `b`.
pub open spec fn double_le_zero(b: u64) -> bool {
    !is_nan_bits(b) && (b >= 0x8000_0000_0000_0000 || b == 0)
}

/// `d > 0.0` for the double of bit pattern `b`.
pub open spec fn double_gt_zero(b: u64) -> bool {
    !is_nan_bits(b) && b < 0x8000_0000_0000_0000 && b != 0
}

/// A cleaned optional string.
pub open spec fn clean_of(o: Option<String>) -> Option<Seq<char>> {
    clean_spec(opt_string_view(o))
}

/// The text, or `d` when there is none.
pub open spec fn or_text(o: Option<Seq<char>>, d: Seq<char>) -> Seq<char> {
    match o {
        Some(t) => t,
        None => d,
    }
}

/// `parts.join(sep)`.
pub open spec fn join(parts: Seq<Seq<char>>, sep: Seq<char>) -> Seq<char>
    decreases parts.len(),
{
    if parts.len() == 0 {
        Seq::empty()
    } else if parts.len() == 1 {
        parts[0]
    } else {
        join(parts.drop_last(), sep) + sep + parts.last()
    }
}

/// A labelled part, present when its text is.
pub open spec fn opt_part(prefix: Seq<char>, o: Option<Seq<char>>) -> Seq<Seq<char>> {
    match o {
        Some(t) => seq![prefix + t],
        None => Seq::empty(),
    }
}

/// The camera line of a shot: movement and angle, joined by ` | `.
pub open spec fn camera_text(c: Option<StructuredCamera>) -> Seq<char> {
    match c {
        Some(cam) => join(
            opt_part("Movement: "@, clean_of(cam.movement)) + opt_part("Angle: "@, clean_of(cam.angle)),
            " | "@,
        ),
        None => Seq::empty(),
    }
}

/// The names that are not blank, trimmed, in order.
pub open spec fn cleaned_names(names: Seq<String>) -> Seq<Seq<char>>
    decreases names.len(),
{
    if names.len() == 0 {
        Seq::empty()
    } else {
        match clean_spec(Some(names.last()@)) {
            Some(n) => cleaned_names(names.drop_last()).push(n),
            None => cleaned_names(names.drop_last()),
        }
    }
}

/// The characters of a shot: its names cleaned, sorted, each once.
pub open spec fn shot_characters(shot: StructuredShot) -> Seq<Seq<char>> {
    sorted_unique(cleaned_names(shot.characters@))
}

/// The dialogue notes of a shot, one per spoken line.
pub open spec fn dialogue_notes(lines: Seq<StructuredDialogueLine>) -> Seq<Seq<char>>
    decreases lines.len(),
{
    if lines.len() == 0 {
        Seq::empty()
    } else {
        let prev = dialogue_notes(lines.drop_last());
        match clean_of(lines.last().line) {
            Some(l) => prev.push(
                "Dialogue – "@ + or_text(clean_of(lines.last().character), "Unknown"@) + ": "@ + l,
            ),
            None => prev,
        }
    }
}

/// The sound notes of a shot: music, effects, then dialogue.
pub open spec fn sound_notes(s: Option<StructuredSound>) -> Seq<Seq<char>> {
    match s {
        Some(snd) => opt_part("Music: "@, clean_of(snd.music)) + opt_part("FX: "@, clean_of(snd.fx))
            + dialogue_notes(snd.dialogue@),
        None => Seq::empty(),
    }
}

/// The notes of a shot, one per line: its characters, then its sound.
pub open spec fn shot_notes(shot: StructuredShot) -> Seq<char> {
    let chars = shot_characters(shot);
    let head = if chars.len() > 0 {
        seq!["Characters: "@ + join(chars, ", "@)]
    } else {
        Seq::empty()
    };
    join(head + sound_notes(shot.sound), "\n"@)
}

/// The length of a shot in seconds (as `f32` bits): the model's value, or
/// five seconds when it gave none or one that is not positive.
pub open spec fn shot_duration(d: Option<DoubleBits>) -> u32 {
    match d {
        Some(x) => if double_le_zero(x.bits) {
            DEFAULT_SHOT_SECONDS_BITS
        } else {
            x.narrowed
        },
        None => DEFAULT_SHOT_SECONDS_BITS,
    }
}

/// The workflow key of a shot, cleaned.
pub open spec fn workflow_key_of(w: Option<StructuredWorkflow>) -> Option<Seq<char>> {
    match w {
        Some(wf) => clean_of(wf.key),
        None => None,
    }
}

/// The workflow id of a shot: its text, trimmed, read as a UUID.
pub open spec fn workflow_id_of(w: Option<StructuredWorkflow>) -> Option<u128> {
    match w {
        Some(wf) => match opt_string_view(wf.id) {
            Some(raw) => parsed_uuid(trim(raw)),
            None => None,
        },
        None => None,
    }
}

/// The workflow inputs of a shot.
pub open spec fn workflow_inputs_of(w: Option<StructuredWorkflow>) -> Seq<(Seq<char>, Json)> {
    match w {
        Some(wf) => match wf.inputs {
            Some(e) => view_entries(e@),
            None => Seq::empty(),
        },
        None => Seq::empty(),
    }
}

/// The draft shot for a structured shot numbered `id`.
pub open spec fn structured_shot_spec(shot: StructuredShot, id: u32) -> ShotV {
    let title = or_text(clean_of(shot.title), "Shot "@ + nat_decimal(id as nat));
    let visual = or_text(clean_of(shot.visual_description), title);
    ShotV {
        id,
        title,
        duration_bits: shot_duration(shot.duration),
        location: or_text(clean_of(shot.location), Seq::empty()),
        time_of_day: Seq::empty(),
        camera: camera_text(shot.camera),
        action: visual,
        visual_description: visual,
        prompt: visual,
        negative_prompt: "blurry, low quality"@,
        notes: shot_notes(shot),
        workflow_key: workflow_key_of(shot.workflow),
        workflow_id: workflow_id_of(shot.workflow),
        workflow_inputs: workflow_inputs_of(shot.workflow),
    }
}

/// The model's id when it is positive.
pub open spec fn given_id(given: Option<u32>) -> bool {
    given matches Some(i) && i > 0
}

/// The id an act or shot gets: the model's, or the next free number.
pub open spec fn id_of(given: Option<u32>, seed: u32) -> u32 {
    match given {
        Some(i) => if i > 0 {
            i
        } else {
            seed
        },
        None => seed,
    }
}

/// `n.saturating_add(1)`.
pub open spec fn sat_succ(n: u32) -> u32 {
    if n == u32::MAX {
        n
    } else {
        (n + 1) as u32
    }
}

/// The next free number after an id is taken: past every id seen.
pub open spec fn next_seed(given: Option<u32>, seed: u32) -> u32 {
    let id = id_of(given, seed);
    let s1 = if given_id(given) {
        seed
    } else {
        (seed + 1) as u32
    };
    if s1 >= sat_succ(id) {
        s1
    } else {
        sat_succ(id)
    }
}

/// Taking a fresh number does not run past `u32::MAX`.
pub open spec fn fresh_ok(given: Option<u32>, seed: u32) -> bool {
    given_id(given) || seed < u32::MAX
}

/// The shots of one act, numbered from `seed` on.
pub struct ShotsFold {
    pub shots: Seq<ShotV>,
    pub seed: u32,
    pub ok: bool,
}

/// The shots of one act, numbered from `seed` on.
pub open spec fn shots_fold(shots: Seq<StructuredShot>, seed: u32) -> ShotsFold
    decreases shots.len(),
{
    if shots.len() == 0 {
        ShotsFold { shots: Seq::empty(), seed, ok: true }
    } else {
        let prev = shots_fold(shots.drop_last(), seed);
        let sh = shots.last();
        ShotsFold {
            shots: prev.shots.push(structured_shot_spec(sh, id_of(sh.id, prev.seed))),
            seed: next_seed(sh.id, prev.seed),
            ok: prev.ok && fresh_ok(sh.id, prev.seed),
        }
    }
}

/// The acts and all shots, numbered in order.
pub struct ActsFold {
    pub acts: Seq<ActV>,
    pub shots: Seq<ShotV>,
    pub act_seed: u32,
    pub shot_seed: u32,
    pub ok: bool,
}

/// The draft act for a structured act numbered `id`, with its shots.
pub open spec fn structured_act_spec(a: StructuredAct, id: u32, shots: Seq<ShotV>) -> ActV {
    ActV {
        id,
        title: or_text(clean_of(a.title), "Act "@ + nat_decimal(id as nat)),
        summary: or_text(clean_of(a.summary), Seq::empty()),
        shots,
    }
}

/// The acts and all shots, numbered in order; act and shot numbers each
/// continue past the highest id seen.
pub open spec fn acts_fold(acts: Seq<StructuredAct>) -> ActsFold
    decreases acts.len(),
{
    if acts.len() == 0 {
        ActsFold { acts: Seq::empty(), shots: Seq::empty(), act_seed: 1, shot_seed: 1, ok: true }
    } else {
        let prev = acts_fold(acts.drop_last());
        let a = acts.last();
        let id = id_of(a.id, prev.act_seed);
        let sf = shots_fold(a.shots@, prev.shot_seed);
        ActsFold {
            acts: prev.acts.push(structured_act_spec(a, id, sf.shots)),
            shots: prev.shots + sf.shots,
            act_seed: next_seed(a.id, prev.act_seed),
            shot_seed: sf.seed,
            ok: prev.ok && fresh_ok(a.id, prev.act_seed) && sf.ok,
        }
    }
}

/// The character lists of all shots, in order.
pub open spec fn character_lists(acts: Seq<StructuredAct>) -> Seq<Seq<Seq<char>>>
    decreases acts.len(),
{
    if acts.len() == 0 {
        Seq::empty()
    } else {
        character_lists(acts.drop_last()) + acts.last().shots@.map_values(|s: StructuredShot| shot_characters(s))
    }
}

/// All names of the lists, in order.
pub open spec fn flatten(lists: Seq<Seq<Seq<char>>>) -> Seq<Seq<char>>
    decreases lists.len(),
{
    if lists.len() == 0 {
        Seq::empty()
    } else {
        flatten(lists.drop_last()) + lists.last()
    }
}

/// The number of lists holding `name`: the shots a character appears in.
pub open spec fn count_with(lists: Seq<Seq<Seq<char>>>, name: Seq<char>) -> nat
    decreases lists.len(),
{
    if lists.len() == 0 {
        0
    } else {
        count_with(lists.drop_last(), name) + if lists.last().contains(name) {
            1nat
        } else {
            0nat
        }
    }
}

/// The cast entry of a character seen in `count` shots.
pub open spec fn character_entry(name: Seq<char>, count: nat) -> CharacterV {
    CharacterV {
        name,
        role: "Appears in "@ + nat_decimal(count) + " shot"@ + if count == 1 {
            Seq::<char>::empty()
        } else {
            "s"@
        },
        description: Seq::empty(),
        visual_design: Seq::empty(),
    }
}

/// The cast of the draft: every character, by name, with the number of
/// shots it appears in.
pub open spec fn cast_spec(acts: Seq<StructuredAct>) -> Seq<CharacterV> {
    let lists = character_lists(acts);
    sorted_unique(flatten(lists)).map_values(|n: Seq<char>| character_entry(n, count_with(lists, n)))
}

/// Some tag reads `structured-json`, in any case.
pub open spec fn has_structured_tag(tags: Seq<Seq<char>>) -> bool {
    exists|i: int| 0 <= i < tags.len() && eq_ignore_case(#[trigger] tags[i], "structured-json"@)
}

/// The style tags: the metadata's, with `structured-json` added when
/// missing, sorted, each once.
pub open spec fn style_tags_spec(tags: Seq<Seq<char>>) -> Seq<Seq<char>> {
    sorted_unique(
        if has_structured_tag(tags) {
            tags
        } else {
            tags.push("structured-json"@)
        },
    )
}

/// The visual style: the metadata's (or a default when blank), with the
/// number of acts when there are any.
pub open spec fn visual_style_spec(fallback: Seq<char>, n_acts: nat) -> Seq<char> {
    let base = if trim(fallback).len() == 0 {
        "Structured screenplay draft"@
    } else {
        fallback
    };
    if n_acts > 0 {
        base + " ("@ + nat_decimal(n_acts) + " act structure)"@
    } else {
        base
    }
}

/// The running time in minutes, when the model gave a positive one.
pub open spec fn minutes_spec(d: Option<DoubleBits>) -> Option<u32> {
    match d {
        Some(x) => if double_gt_zero(x.bits) {
            Some(x.narrowed)
        } else {
            None
        },
        None => None,
    }
}

/// `structured_screenplay_to_draft`.
pub open spec fn structured_draft_spec(st: StructuredScreenplay, draft: LlmScreenplayDraft) -> DraftV {
    let meta = metadata_spec(draft.metadata@);
    let folded = acts_fold(st.acts@);
    DraftV {
        title: or_text(clean_of(st.title), meta.0),
        genre: or_text(clean_of(st.genre), meta.1),
        logline: match clean_of(st.synopsis) {
            Some(s) => s,
            None => logline_spec(opt_string_view(draft.synopsis), draft.script@),
        },
        visual_style: visual_style_spec(meta.3, st.acts@.len()),
        style_tags: style_tags_spec(meta.2),
        duration_minutes_bits: minutes_spec(st.duration),
        defaults: standard_defaults(),
        characters: cast_spec(st.acts@),
        shots: folded.shots,
        acts: folded.acts,
    }
}

/// The conversion runs without overflow or a cut inside a character: no
/// fresh number past `u32::MAX`, and a logline preview that can be cut.
pub open spec fn structured_ok(st: StructuredScreenplay, draft: LlmScreenplayDraft) -> bool {
    &&& acts_fold(st.acts@).ok
    &&& clean_of(st.synopsis) is Some || logline_previewable(opt_string_view(draft.synopsis), draft.script@)
}


/// A cleaned copy of an optional string.
fn clean_ref(o: &Option<String>) -> (r: Option<String>)
    ensures
        opt_string_view(r) == clean_of(*o),
{
    match o {
        Some(raw) => {
            let t = trim_vec(chars_of(raw.as_str()).as_slice());
            if t.len() == 0 {
                None
            } else {
                Some(string_of(t.as_slice()))
            }
        },
        None => None,
    }
}

/// `parts.join(sep)`.
fn join_exec(parts: &Vec<String>, sep: &str) -> (r: String)
    ensures
        r@ == join(strings_view(parts@), sep@),
{
    let ghost sv = strings_view(parts@);
    let sc = chars_of(sep);
    let mut acc: Vec<char> = Vec::new();
    let mut i: usize = 0;
    while i < parts.len()
        invariant
            sv == strings_view(parts@),
            sc@ == sep@,
            i <= parts@.len(),
            acc@ == join(sv.subrange(0, i as int), sep@),
        decreases parts@.len() - i,
    {
        let p = chars_of(parts[i].as_str());
        proof {
            assert(sv.subrange(0, i + 1).drop_last() =~= sv.subrange(0, i as int));
            assert(sv[i as int] == parts@[i as int]@);
        }
        if i == 0 {
            acc = p;
        } else {
            acc = crate::text::concat3(acc.as_slice(), sc.as_slice(), p.as_slice());
        }
        i = i + 1;
    }
    assert(sv.subrange(0, parts@.len() as int) =~= sv);
    string_of(acc.as_slice())
}

/// Pushes `prefix` followed by the text, when there is one.
fn push_part(parts: &mut Vec<String>, prefix: &str, o: Option<String>)
    ensures
        strings_view(final(parts)@) == strings_view(old(parts)@) + opt_part(prefix@, opt_string_view(o)),
{
    let ghost before = strings_view(parts@);
    if let Some(t) = o {
        let x = cat(prefix, t.as_str());
        parts.push(x);
        assert(strings_view(parts@) =~= before + seq![prefix@ + t@]);
    } else {
        assert(strings_view(parts@) =~= before + Seq::<Seq<char>>::empty());
    }
}

/// The camera line of a shot.
fn camera_exec(c: &Option<StructuredCamera>) -> (r: String)
    ensures
        r@ == camera_text(*c),
{
    match c {
        Some(cam) => {
            let mut parts: Vec<String> = Vec::new();
            assert(strings_view(parts@) =~= Seq::<Seq<char>>::empty());
            push_part(&mut parts, "Movement: ", clean_ref(&cam.movement));
            push_part(&mut parts, "Angle: ", clean_ref(&cam.angle));
            assert(strings_view(parts@) =~= opt_part("Movement: "@, clean_of(cam.movement)) + opt_part(
                "Angle: "@,
                clean_of(cam.angle),
            ));
            join_exec(&parts, " | ")
        },
        None => String::new(),
    }
}

/// The characters of a shot: cleaned, sorted, each once.
fn names_exec(names: &Vec<String>) -> (r: Vec<String>)
    ensures
        strings_view(r@) == sorted_unique(cleaned_names(names@)),
{
    let mut cleaned: Vec<String> = Vec::new();
    let mut i: usize = 0;
    while i < names.len()
        invariant
            i <= names@.len(),
            strings_view(cleaned@) == cleaned_names(names@.subrange(0, i as int)),
        decreases names@.len() - i,
    {
        proof {
            assert(names@.subrange(0, i + 1).drop_last() =~= names@.subrange(0, i as int));
        }
        let t = trim_vec(chars_of(names[i].as_str()).as_slice());
        if t.len() > 0 {
            let ghost before = strings_view(cleaned@);
            cleaned.push(string_of(t.as_slice()));
            assert(strings_view(cleaned@) =~= before.push(t@));
        }
        i = i + 1;
    }
    assert(names@.subrange(0, names@.len() as int) =~= names@);
    sort_dedup(cleaned)
}

/// Appends the dialogue notes of the lines.
fn push_dialogue(notes: &mut Vec<String>, lines: &Vec<StructuredDialogueLine>)
    ensures
        strings_view(final(notes)@) == strings_view(old(notes)@) + dialogue_notes(lines@),
{
    let ghost start = strings_view(notes@);
    let mut i: usize = 0;
    assert(start + dialogue_notes(lines@.subrange(0, 0)) =~= start);
    while i < lines.len()
        invariant
            i <= lines@.len(),
            strings_view(notes@) == start + dialogue_notes(lines@.subrange(0, i as int)),
        decreases lines@.len() - i,
    {
        proof {
            assert(lines@.subrange(0, i + 1).drop_last() =~= lines@.subrange(0, i as int));
        }
        let l = &lines[i];
        if let Some(text) = clean_ref(&l.line) {
            let speaker = match clean_ref(&l.character) {
                Some(sp) => sp,
                None => String::from_str("Unknown"),
            };
            let head = cat3("Dialogue – ", speaker.as_str(), ": ");
            let note = cat(head.as_str(), text.as_str());
            let ghost before = strings_view(notes@);
            notes.push(note);
            assert(strings_view(notes@) =~= before.push(note@));
            assert(start + dialogue_notes(lines@.subrange(0, i + 1)) =~= before.push(note@));
        }
        i = i + 1;
    }
    assert(lines@.subrange(0, lines@.len() as int) =~= lines@);
}

/// The notes of a shot, given its characters.
fn notes_exec(chars: &Vec<String>, sound: &Option<StructuredSound>) -> (r: String)
    ensures
        r@ == join(
            (if strings_view(chars@).len() > 0 {
                seq!["Characters: "@ + join(strings_view(chars@), ", "@)]
            } else {
                Seq::empty()
            }) + sound_notes(*sound),
            "\n"@,
        ),
{
    let mut notes: Vec<String> = Vec::new();
    if chars.len() > 0 {
        let list = join_exec(chars, ", ");
        notes.push(cat("Characters: ", list.as_str()));
    }
    let ghost head = strings_view(notes@);
    assert(head =~= (if strings_view(chars@).len() > 0 {
        seq!["Characters: "@ + join(strings_view(chars@), ", "@)]
    } else {
        Seq::<Seq<char>>::empty()
    }));
    if let Some(snd) = sound {
        push_part(&mut notes, "Music: ", clean_ref(&snd.music));
        push_part(&mut notes, "FX: ", clean_ref(&snd.fx));
        push_dialogue(&mut notes, &snd.dialogue);
        assert(strings_view(notes@) =~= head + sound_notes(*sound));
    } else {
        assert(strings_view(notes@) =~= head + sound_notes(*sound));
    }
    join_exec(&notes, "\n")
}

/// `d <= 0.0` on the bits of a double.
fn double_le_zero_exec(b: u64) -> (r: bool)
    ensures
        r == double_le_zero(b),
{
    let nan = (b >> 52u64) & 0x7ff == 0x7ff && b & 0xf_ffff_ffff_ffff != 0;
    !nan && (b >= 0x8000_0000_0000_0000 || b == 0)
}

/// The workflow id of a shot.
fn workflow_id_exec(w: &Option<StructuredWorkflow>) -> (r: Option<u128>)
    ensures
        r == workflow_id_of(*w),
{
    match w {
        Some(wf) => match &wf.id {
            Some(raw) => {
                let t = string_of(trim_vec(chars_of(raw.as_str()).as_slice()).as_slice());
                parse_uuid(t.as_str())
            },
            None => None,
        },
        None => None,
    }
}

/// The draft shot for a structured shot numbered `id`, with its characters.
fn shot_exec(shot: &StructuredShot, id: u32) -> (r: (ScreenplayShot, Vec<String>))
    ensures
        r.0@ == structured_shot_spec(*shot, id),
        strings_view(r.1@) == shot_characters(*shot),
{
    let title = match clean_ref(&shot.title) {
        Some(t) => t,
        None => cat("Shot ", u64_decimal_string(id as u64).as_str()),
    };
    let visual = match clean_ref(&shot.visual_description) {
        Some(v) => v,
        None => title.clone(),
    };
    let location = match clean_ref(&shot.location) {
        Some(l) => l,
        None => String::new(),
    };
    let duration_bits = match shot.duration {
        Some(d) => if double_le_zero_exec(d.bits) {
            DEFAULT_SHOT_SECONDS_BITS
        } else {
            d.narrowed
        },
        None => DEFAULT_SHOT_SECONDS_BITS,
    };
    let camera = camera_exec(&shot.camera);
    let chars = names_exec(&shot.characters);
    let notes = notes_exec(&chars, &shot.sound);
    let workflow_key = match &shot.workflow {
        Some(wf) => clean_ref(&wf.key),
        None => None,
    };
    let workflow_id = workflow_id_exec(&shot.workflow);
    let workflow_inputs = match &shot.workflow {
        Some(wf) => match &wf.inputs {
            Some(e) => crate::json::clone_entries(e),
            None => Vec::new(),
        },
        None => Vec::new(),
    };
    proof {
        crate::json::lemma_view_entries(workflow_inputs@);
    }
    let entry = ScreenplayShot {
        id,
        title,
        duration_bits,
        location,
        time_of_day: String::new(),
        camera,
        action: visual.clone(),
        visual_description: visual.clone(),
        prompt: visual,
        negative_prompt: String::from_str("blurry, low quality"),
        notes,
        workflow_key,
        workflow_id,
        workflow_inputs,
    };
    assert(workflow_inputs_of(shot.workflow) == view_entries(entry.workflow_inputs@));
    (entry, chars)
}

/// A copy of a shot.
fn clone_shot(s: &ScreenplayShot) -> (r: ScreenplayShot)
    ensures
        r@ == s@,
{
    let workflow_key = match &s.workflow_key {
        Some(k) => Some(k.clone()),
        None => None,
    };
    ScreenplayShot {
        id: s.id,
        title: s.title.clone(),
        duration_bits: s.duration_bits,
        location: s.location.clone(),
        time_of_day: s.time_of_day.clone(),
        camera: s.camera.clone(),
        action: s.action.clone(),
        visual_description: s.visual_description.clone(),
        prompt: s.prompt.clone(),
        negative_prompt: s.negative_prompt.clone(),
        notes: s.notes.clone(),
        workflow_key,
        workflow_id: s.workflow_id,
        workflow_inputs: crate::json::clone_entries(&s.workflow_inputs),
    }
}

/// The id an act or shot gets, and the next free number.
fn take_id(given: Option<u32>, seed: u32) -> (r: (u32, u32))
    requires
        fresh_ok(given, seed),
    ensures
        r.0 == id_of(given, seed),
        r.1 == next_seed(given, seed),
{
    let (id, s1) = match given {
        Some(i) => if i > 0 {
            (i, seed)
        } else {
            (seed, seed + 1)
        },
        None => (seed, seed + 1),
    };
    let succ = if id == u32::MAX {
        id
    } else {
        id + 1
    };
    let next = if s1 >= succ {
        s1
    } else {
        succ
    };
    (id, next)
}


/// The character lists of a vector of lists, by view.
pub open spec fn lists_view(l: Seq<Vec<String>>) -> Seq<Seq<Seq<char>>> {
    l.map_values(|x: Vec<String>| strings_view(x@))
}

/// The numbering of a prefix of the shots runs without overflow when the
/// whole does.
proof fn lemma_shots_ok_prefix(s: Seq<StructuredShot>, seed: u32, k: int)
    requires
        0 <= k <= s.len(),
        shots_fold(s, seed).ok,
    ensures
        shots_fold(s.subrange(0, k), seed).ok,
    decreases s.len() - k,
{
    if k == s.len() {
        assert(s.subrange(0, k) =~= s);
    } else {
        lemma_shots_ok_prefix(s, seed, k + 1);
        assert(s.subrange(0, k + 1).drop_last() =~= s.subrange(0, k));
    }
}

/// The numbering of a prefix of the acts runs without overflow when the
/// whole does.
proof fn lemma_acts_ok_prefix(s: Seq<StructuredAct>, k: int)
    requires
        0 <= k <= s.len(),
        acts_fold(s).ok,
    ensures
        acts_fold(s.subrange(0, k)).ok,
    decreases s.len() - k,
{
    if k == s.len() {
        assert(s.subrange(0, k) =~= s);
    } else {
        lemma_acts_ok_prefix(s, k + 1);
        assert(s.subrange(0, k + 1).drop_last() =~= s.subrange(0, k));
    }
}

/// One act of the draft per act of the screenplay.
proof fn lemma_acts_len(s: Seq<StructuredAct>)
    ensures
        acts_fold(s).acts.len() == s.len(),
    decreases s.len(),
{
    if s.len() > 0 {
        lemma_acts_len(s.drop_last());
    }
}

/// The shots of one act, numbered from `seed`, with their character lists.
fn act_shots_exec(
    shots: &Vec<StructuredShot>,
    seed: u32,
    all_shots: &mut Vec<ScreenplayShot>,
    lists: &mut Vec<Vec<String>>,
) -> (r: (Vec<ScreenplayShot>, u32))
    requires
        shots_fold(shots@, seed).ok,
    ensures
        crate::draft::shots_view(r.0@) == shots_fold(shots@, seed).shots,
        r.1 == shots_fold(shots@, seed).seed,
        crate::draft::shots_view(final(all_shots)@) == crate::draft::shots_view(old(all_shots)@) + shots_fold(
            shots@,
            seed,
        ).shots,
        lists_view(final(lists)@) == lists_view(old(lists)@) + shots@.map_values(
            |x: StructuredShot| shot_characters(x),
        ),
{
    let ghost all0 = crate::draft::shots_view(all_shots@);
    let ghost lists0 = lists_view(lists@);
    let mut out: Vec<ScreenplayShot> = Vec::new();
    let mut cur = seed;
    let mut j: usize = 0;
    assert(shots@.subrange(0, 0) =~= Seq::<StructuredShot>::empty());
    while j < shots.len()
        invariant
            j <= shots@.len(),
            shots_fold(shots@, seed).ok,
            shots_fold(shots@.subrange(0, j as int), seed).shots == crate::draft::shots_view(out@),
            shots_fold(shots@.subrange(0, j as int), seed).seed == cur,
            crate::draft::shots_view(all_shots@) == all0 + crate::draft::shots_view(out@),
            lists_view(lists@) == lists0 + shots@.subrange(0, j as int).map_values(
                |x: StructuredShot| shot_characters(x),
            ),
        decreases shots@.len() - j,
    {
        proof {
            assert(shots@.subrange(0, j + 1).drop_last() =~= shots@.subrange(0, j as int));
            lemma_shots_ok_prefix(shots@, seed, j + 1);
        }
        let sh = &shots[j];
        let (id, next) = take_id(sh.id, cur);
        let (entry, chars) = shot_exec(sh, id);
        let ghost ev = entry@;
        let ghost before_out = crate::draft::shots_view(out@);
        let ghost before_all = crate::draft::shots_view(all_shots@);
        let ghost before_lists = lists_view(lists@);
        out.push(clone_shot(&entry));
        all_shots.push(entry);
        lists.push(chars);
        proof {
            assert(crate::draft::shots_view(out@) =~= before_out.push(ev));
            assert(crate::draft::shots_view(all_shots@) =~= before_all.push(ev));
            assert(lists_view(lists@) =~= before_lists.push(shot_characters(shots@[j as int])));
            assert(shots@.subrange(0, j + 1).map_values(|x: StructuredShot| shot_characters(x))
                =~= shots@.subrange(0, j as int).map_values(|x: StructuredShot| shot_characters(x)).push(
                shot_characters(shots@[j as int]),
            ));
        }
        cur = next;
        j = j + 1;
    }
    assert(shots@.subrange(0, shots@.len() as int) =~= shots@);
    (out, cur)
}

/// The list holds `name`.
fn list_contains(list: &Vec<String>, name: &String) -> (r: bool)
    ensures
        r == strings_view(list@).contains(name@),
{
    let nc = chars_of(name.as_str());
    let mut i: usize = 0;
    while i < list.len()
        invariant
            i <= list@.len(),
            nc@ == name@,
            forall|k: int| 0 <= k < i ==> strings_view(list@)[k] != name@,
        decreases list@.len() - i,
    {
        assert(strings_view(list@)[i as int] == list@[i as int]@);
        if crate::text::chars_eq(chars_of(list[i].as_str()).as_slice(), nc.as_slice()) {
            assert(strings_view(list@)[i as int] == name@);
            return true;
        }
        i = i + 1;
    }
    false
}

/// The cast of the draft, from the character lists of its shots.
fn cast_exec(lists: &Vec<Vec<String>>) -> (r: Vec<ScreenplayCharacter>)
    ensures
        r@.map_values(|c: ScreenplayCharacter| c@) == sorted_unique(flatten(lists_view(lists@))).map_values(
            |n: Seq<char>| character_entry(n, count_with(lists_view(lists@), n)),
        ),
{
    let ghost lv = lists_view(lists@);
    let mut flat: Vec<String> = Vec::new();
    let mut i: usize = 0;
    while i < lists.len()
        invariant
            lv == lists_view(lists@),
            i <= lists@.len(),
            strings_view(flat@) == flatten(lv.subrange(0, i as int)),
        decreases lists@.len() - i,
    {
        proof {
            assert(lv.subrange(0, i + 1).drop_last() =~= lv.subrange(0, i as int));
            assert(lv[i as int] == strings_view(lists@[i as int]@));
        }
        let l = &lists[i];
        let ghost base = strings_view(flat@);
        let mut j: usize = 0;
        while j < l.len()
            invariant
                j <= l@.len(),
                strings_view(flat@) == base + strings_view(l@).subrange(0, j as int),
            decreases l@.len() - j,
        {
            let ghost fb = strings_view(flat@);
            flat.push(l[j].clone());
            assert(strings_view(flat@) =~= fb.push(l@[j as int]@));
            assert(strings_view(l@).subrange(0, j + 1) =~= strings_view(l@).subrange(0, j as int).push(l@[j as int]@));
            assert(strings_view(flat@) =~= base + strings_view(l@).subrange(0, j + 1));
            j = j + 1;
        }
        assert(strings_view(l@).subrange(0, l@.len() as int) =~= strings_view(l@));
        i = i + 1;
    }
    assert(lv.subrange(0, lists@.len() as int) =~= lv);
    let names = sort_dedup(flat);
    let ghost nv = strings_view(names@);
    let mut out: Vec<ScreenplayCharacter> = Vec::new();
    let mut k: usize = 0;
    while k < names.len()
        invariant
            lv == lists_view(lists@),
            nv == strings_view(names@),
            nv == sorted_unique(flatten(lv)),
            k <= names@.len(),
            out@.map_values(|c: ScreenplayCharacter| c@) == nv.subrange(0, k as int).map_values(
                |n: Seq<char>| character_entry(n, count_with(lv, n)),
            ),
        decreases names@.len() - k,
    {
        let name = &names[k];
        assert(nv[k as int] == name@);
        let mut count: usize = 0;
        let mut m: usize = 0;
        while m < lists.len()
            invariant
                lv == lists_view(lists@),
                m <= lists@.len(),
                count <= m,
                count == count_with(lv.subrange(0, m as int), name@),
            decreases lists@.len() - m,
        {
            proof {
                assert(lv.subrange(0, m + 1).drop_last() =~= lv.subrange(0, m as int));
                assert(lv[m as int] == strings_view(lists@[m as int]@));
            }
            if list_contains(&lists[m], name) {
                count = count + 1;
            }
            m = m + 1;
        }
        assert(lv.subrange(0, lists@.len() as int) =~= lv);
        let num = u64_decimal_string(count as u64);
        let head = cat3("Appears in ", num.as_str(), " shot");
        let role = if count == 1 {
            head
        } else {
            cat(head.as_str(), "s")
        };
        proof {
            if count == 1 {
                assert(head@ + Seq::<char>::empty() =~= head@);
            }
        }
        let c = ScreenplayCharacter {
            name: name.clone(),
            role,
            description: String::new(),
            visual_design: String::new(),
        };
        let ghost before = out@.map_values(|c: ScreenplayCharacter| c@);
        out.push(c);
        assert(out@.map_values(|c: ScreenplayCharacter| c@) =~= before.push(character_entry(name@, count as nat)));
        assert(nv.subrange(0, k + 1).map_values(|n: Seq<char>| character_entry(n, count_with(lv, n)))
            =~= nv.subrange(0, k as int).map_values(|n: Seq<char>| character_entry(n, count_with(lv, n))).push(
            character_entry(name@, count_with(lv, name@)),
        ));
        k = k + 1;
    }
    assert(nv.subrange(0, names@.len() as int) =~= nv);
    out
}

/// The style tags of a structured draft.
fn style_tags_exec(tags: Vec<String>) -> (r: Vec<String>)
    ensures
        strings_view(r@) == style_tags_spec(strings_view(tags@)),
{
    let ghost tv = strings_view(tags@);
    let mut found = false;
    let mut i: usize = 0;
    while i < tags.len()
        invariant
            tv == strings_view(tags@),
            i <= tags@.len(),
            found == exists|k: int| 0 <= k < i && eq_ignore_case(#[trigger] tv[k], "structured-json"@),
        decreases tags@.len() - i,
    {
        assert(tv[i as int] == tags@[i as int]@);
        if eq_ignore_case_lit(chars_of(tags[i].as_str()).as_slice(), "structured-json") {
            found = true;
        }
        i = i + 1;
    }
    let mut all = tags;
    if !found {
        all.push(String::from_str("structured-json"));
        assert(strings_view(all@) =~= tv.push("structured-json"@));
    }
    sort_dedup(all)
}

/// The visual style of a structured draft.
fn visual_style_exec(fallback: String, n_acts: usize) -> (r: String)
    ensures
        r@ == visual_style_spec(fallback@, n_acts as nat),
{
    let t = trim_vec(chars_of(fallback.as_str()).as_slice());
    let base = if t.len() == 0 {
        String::from_str("Structured screenplay draft")
    } else {
        fallback
    };
    if n_acts > 0 {
        let num = u64_decimal_string(n_acts as u64);
        let head = cat3(base.as_str(), " (", num.as_str());
        cat(head.as_str(), " act structure)")
    } else {
        base
    }
}

/// `structured_screenplay_to_draft`: acts and shots numbered (the model's
/// positive ids kept, the others taking the next number past every id
/// seen), shot notes from characters, sound and dialogue, the cast with the
/// number of shots each character appears in, and the metadata's title,
/// genre and style where the screenplay gives none.
pub fn structured_screenplay_to_draft(structured: StructuredScreenplay, draft: &LlmScreenplayDraft) -> (r: ScreenplayDraft)
    requires
        structured_ok(structured, *draft),
    ensures
        r@ == structured_draft_spec(structured, *draft),
{
    let (fallback_title, fallback_genre, tags, fallback_visual) = extract_draft_metadata(draft);
    let style_tags = style_tags_exec(tags);
    let title = match clean_ref(&structured.title) {
        Some(t) => t,
        None => fallback_title,
    };
    let genre = match clean_ref(&structured.genre) {
        Some(g) => g,
        None => fallback_genre,
    };
    let logline = match clean_ref(&structured.synopsis) {
        Some(s) => s,
        None => crate::draft::logline_exec(&draft.synopsis, &draft.script),
    };
    let ghost acts = structured.acts@;
    let mut act_seed: u32 = 1;
    let mut shot_seed: u32 = 1;
    let mut all_shots: Vec<ScreenplayShot> = Vec::new();
    let mut acts_out: Vec<ScreenplayAct> = Vec::new();
    let mut lists: Vec<Vec<String>> = Vec::new();
    let mut k: usize = 0;
    assert(acts.subrange(0, 0) =~= Seq::<StructuredAct>::empty());
    assert(crate::draft::shots_view(all_shots@) =~= Seq::<ShotV>::empty());
    assert(acts_out@.map_values(|a: ScreenplayAct| a@) =~= Seq::<ActV>::empty());
    assert(lists_view(lists@) =~= Seq::<Seq<Seq<char>>>::empty());
    while k < structured.acts.len()
        invariant
            acts == structured.acts@,
            acts_fold(acts).ok,
            k <= acts.len(),
            acts_fold(acts.subrange(0, k as int)).acts == acts_out@.map_values(|a: ScreenplayAct| a@),
            acts_fold(acts.subrange(0, k as int)).shots == crate::draft::shots_view(all_shots@),
            acts_fold(acts.subrange(0, k as int)).act_seed == act_seed,
            acts_fold(acts.subrange(0, k as int)).shot_seed == shot_seed,
            character_lists(acts.subrange(0, k as int)) == lists_view(lists@),
        decreases acts.len() - k,
    {
        proof {
            assert(acts.subrange(0, k + 1).drop_last() =~= acts.subrange(0, k as int));
            lemma_acts_ok_prefix(acts, k + 1);
        }
        let act = &structured.acts[k];
        let (act_id, next_act) = take_id(act.id, act_seed);
        let act_title = match clean_ref(&act.title) {
            Some(t) => t,
            None => cat("Act ", u64_decimal_string(act_id as u64).as_str()),
        };
        let act_summary = match clean_ref(&act.summary) {
            Some(t) => t,
            None => String::new(),
        };
        let ghost all_before = crate::draft::shots_view(all_shots@);
        let ghost lists_before = lists_view(lists@);
        let (act_shots, next_shot) = act_shots_exec(&act.shots, shot_seed, &mut all_shots, &mut lists);
        let entry = ScreenplayAct { id: act_id, title: act_title, summary: act_summary, shots: act_shots };
        let ghost before = acts_out@.map_values(|a: ScreenplayAct| a@);
        assert(entry@ == structured_act_spec(*act, act_id, shots_fold(act.shots@, shot_seed).shots));
        acts_out.push(entry);
        assert(acts_out@.map_values(|a: ScreenplayAct| a@) =~= before.push(
            structured_act_spec(*act, act_id, shots_fold(act.shots@, shot_seed).shots),
        ));
        act_seed = next_act;
        shot_seed = next_shot;
        k = k + 1;
    }
    assert(acts.subrange(0, acts.len() as int) =~= acts);
    proof {
        lemma_acts_len(acts);
    }
    let characters = cast_exec(&lists);
    let n_acts = acts_out.len();
    let visual_style = visual_style_exec(fallback_visual, n_acts);
    let duration_minutes_bits = match structured.duration {
        Some(d) => {
            let nan = (d.bits >> 52u64) & 0x7ff == 0x7ff && d.bits & 0xf_ffff_ffff_ffff != 0;
            if !nan && d.bits < 0x8000_0000_0000_0000 && d.bits != 0 {
                Some(d.narrowed)
            } else {
                None
            }
        },
        None => None,
    };
    ScreenplayDraft {
        title,
        genre,
        logline,
        visual_style,
        style_tags,
        duration_minutes_bits,
        defaults: standard_prompt_defaults(),
        characters,
        shots: all_shots,
        acts: acts_out,
    }
}


/// Some act of the screenplay has a shot.
pub open spec fn has_shots(st: StructuredScreenplay) -> bool {
    exists|i: int| 0 <= i < st.acts@.len() && (#[trigger] st.acts@[i]).shots@.len() > 0
}

/// `llm_draft_to_screenplay`: the structured screenplay read from the
/// draft's script when there is one with at least one shot, else the
/// free-text conversion of the script.
pub open spec fn llm_draft_spec(draft: LlmScreenplayDraft, structured: Option<StructuredScreenplay>) -> DraftV {
    match structured {
        Some(st) => if has_shots(st) {
            structured_draft_spec(st, draft)
        } else {
            legacy_draft_spec(opt_string_view(draft.synopsis), draft.script@, draft.metadata@)
        },
        None => legacy_draft_spec(opt_string_view(draft.synopsis), draft.script@, draft.metadata@),
    }
}

/// The conversion `llm_draft_to_screenplay` takes runs without overflow or
/// a cut inside a character.
pub open spec fn llm_draft_ok(draft: LlmScreenplayDraft, structured: Option<StructuredScreenplay>) -> bool {
    match structured {
        Some(st) => if has_shots(st) {
            structured_ok(st, draft)
        } else {
            legacy_previewable(opt_string_view(draft.synopsis), draft.script@)
        },
        None => legacy_previewable(opt_string_view(draft.synopsis), draft.script@),
    }
}

/// `llm_draft_to_screenplay`, given what the script parses to as a
/// structured screenplay (see `structured_json_candidates`).
pub fn llm_draft_to_screenplay(draft: LlmScreenplayDraft, structured: Option<StructuredScreenplay>) -> (r: ScreenplayDraft)
    requires
        llm_draft_ok(draft, structured),
    ensures
        r@ == llm_draft_spec(draft, structured),
{
    if let Some(st) = structured {
        let mut i: usize = 0;
        let mut any = false;
        while i < st.acts.len()
            invariant
                i <= st.acts@.len(),
                any == exists|k: int| 0 <= k < i && (#[trigger] st.acts@[k]).shots@.len() > 0,
            decreases st.acts@.len() - i,
        {
            if st.acts[i].shots.len() > 0 {
                any = true;
            }
            i = i + 1;
        }
        if any {
            return structured_screenplay_to_draft(st, &draft);
        }
    }
    legacy_screenplay_from_text(draft)
}

/// The index of the first `c` in `s`.
pub open spec fn first_index_of(s: Seq<char>, c: char) -> Option<int>
    decreases s.len(),
{
    if s.len() == 0 {
        None
    } else if s[0] == c {
        Some(0)
    } else {
        match first_index_of(s.drop_first(), c) {
            Some(i) => Some(i + 1),
            None => None,
        }
    }
}

/// The index of the last `c` in `s`.
pub open spec fn last_index_of(s: Seq<char>, c: char) -> Option<int>
    decreases s.len(),
{
    if s.len() == 0 {
        None
    } else if s.last() == c {
        Some(s.len() - 1)
    } else {
        last_index_of(s.drop_last(), c)
    }
}

/// The texts a structured screenplay is looked for in, in order: the
/// trimmed script, then the span from its first `{` to its last `}`; none
/// when the script is blank.
pub open spec fn candidates_spec(raw: Seq<char>) -> Seq<Seq<char>> {
    let t = trim(raw);
    if t.len() == 0 {
        Seq::empty()
    } else {
        match (first_index_of(t, '{'), last_index_of(t, '}')) {
            (Some(a), Some(b)) => if b > a {
                seq![t, t.subrange(a, b + 1)]
            } else {
                seq![t]
            },
            _ => seq![t],
        }
    }
}

proof fn lemma_first_index(s: Seq<char>, c: char, i: int)
    requires
        0 <= i <= s.len(),
        forall|k: int| 0 <= k < i ==> s[k] != c,
        i == s.len() || s[i] == c,
    ensures
        first_index_of(s, c) == if i == s.len() {
            None::<int>
        } else {
            Some(i)
        },
    decreases s.len(),
{
    if s.len() > 0 && s[0] != c {
        lemma_first_index(s.drop_first(), c, i - 1);
    }
}

proof fn lemma_last_index(s: Seq<char>, c: char, j: int)
    requires
        0 <= j <= s.len(),
        forall|k: int| j <= k < s.len() ==> s[k] != c,
        j == 0 || s[j - 1] == c,
    ensures
        last_index_of(s, c) == if j == 0 {
            None::<int>
        } else {
            Some(j - 1)
        },
    decreases s.len(),
{
    if s.len() > 0 && s.last() != c {
        lemma_last_index(s.drop_last(), c, j);
    }
}

/// `first_index_of` finds the first occurrence.
pub proof fn lemma_first_index_pub(s: Seq<char>, c: char, i: int)
    requires
        0 <= i <= s.len(),
        forall|k: int| 0 <= k < i ==> s[k] != c,
        i == s.len() || s[i] == c,
    ensures
        first_index_of(s, c) == if i == s.len() {
            None::<int>
        } else {
            Some(i)
        },
{
    lemma_first_index(s, c, i);
}

/// The texts tried, in order, to read as a structured
/// screenplay, in order; the first that parses is the screenplay.
pub fn structured_json_candidates(raw: &str) -> (r: Vec<String>)
    ensures
        strings_view(r@) == candidates_spec(raw@),
{
    let t = trim_vec(chars_of(raw).as_slice());
    let mut r: Vec<String> = Vec::new();
    if t.len() == 0 {
        assert(strings_view(r@) =~= Seq::<Seq<char>>::empty());
        return r;
    }
    r.push(string_of(t.as_slice()));
    let mut a: usize = 0;
    while a < t.len() && t[a] != '{'
        invariant
            a <= t@.len(),
            forall|k: int| 0 <= k < a ==> t@[k] != '{',
        decreases t@.len() - a,
    {
        a = a + 1;
    }
    let mut b: usize = t.len();
    while b > 0 && t[b - 1] != '}'
        invariant
            b <= t@.len(),
            forall|k: int| b <= k < t@.len() ==> t@[k] != '}',
        decreases b,
    {
        b = b - 1;
    }
    proof {
        lemma_first_index(t@, '{', a as int);
        lemma_last_index(t@, '}', b as int);
    }
    if a < t.len() && b > 0 && b - 1 > a {
        let span = string_of(vstd::slice::slice_subrange(t.as_slice(), a, b));
        r.push(span);
    }
    assert(strings_view(r@) =~= candidates_spec(raw@));
    r
}

} // verus!
