//! The screenplay draft the editor shows and turns into storyboard cards,
//! and its construction from a language model's free-text draft.

use vstd::prelude::*;
use crate::json::{view_entries, Json, JsonValue};
use crate::screenplay::{
    extract_draft_metadata, metadata_spec, opt_string_view, preview_spec, previewable,
    strings_view, truncate_preview, LlmScreenplayDraft,
};
use crate::text::{chars_of, string_of, trim, trim_vec};

verus! {

/// Bit pattern of the single-precision 5.0, the default shot length in seconds.
pub const DEFAULT_SHOT_SECONDS_BITS: u32 = 0x40a0_0000;

/// Bit pattern of the single-precision 24.0, the default frame rate.
pub const DEFAULT_FRAME_RATE_BITS: u32 = 0x41c0_0000;

/// Generation defaults of a draft.
pub struct PromptDefaults {
    pub negative_prompt: String,
    /// Frames per second, as the bit pattern of an `f32`.
    pub frame_rate_bits: u32,
    pub width: u32,
    pub height: u32,
}

/// A character of a draft.
pub struct ScreenplayCharacter {
    pub name: String,
    pub role: String,
    pub description: String,
    pub visual_design: String,
}

/// A shot of a draft.
pub struct ScreenplayShot {
    pub id: u32,
    pub title: String,
    /// Seconds, as the bit pattern of an `f32`.
    pub duration_bits: u32,
    pub location: String,
    pub time_of_day: String,
    pub camera: String,
    pub action: String,
    pub visual_description: String,
    pub prompt: String,
    pub negative_prompt: String,
    pub notes: String,
    pub workflow_key: Option<String>,
    pub workflow_id: Option<u128>,
    pub workflow_inputs: Vec<(String, JsonValue)>,
}

/// An act of a draft, with its shots.
pub struct ScreenplayAct {
    pub id: u32,
    pub title: String,
    pub summary: String,
    pub shots: Vec<ScreenplayShot>,
}

/// A screenplay draft.
pub struct ScreenplayDraft {
    pub title: String,
    pub genre: String,
    pub logline: String,
    pub visual_style: String,
    pub style_tags: Vec<String>,
    /// Minutes, as the bit pattern of an `f32`.
    pub duration_minutes_bits: Option<u32>,
    pub defaults: PromptDefaults,
    pub characters: Vec<ScreenplayCharacter>,
    pub shots: Vec<ScreenplayShot>,
    pub acts: Vec<ScreenplayAct>,
}

/// The value of `PromptDefaults`.
pub struct DefaultsV {
    pub negative_prompt: Seq<char>,
    pub frame_rate_bits: u32,
    pub width: u32,
    pub height: u32,
}

/// The value of `ScreenplayCharacter`.
pub struct CharacterV {
    pub name: Seq<char>,
    pub role: Seq<char>,
    pub description: Seq<char>,
    pub visual_design: Seq<char>,
}

/// The value of `ScreenplayShot`.
pub struct ShotV {
    pub id: u32,
    pub title: Seq<char>,
    pub duration_bits: u32,
    pub location: Seq<char>,
    pub time_of_day: Seq<char>,
    pub camera: Seq<char>,
    pub action: Seq<char>,
    pub visual_description: Seq<char>,
    pub prompt: Seq<char>,
    pub negative_prompt: Seq<char>,
    pub notes: Seq<char>,
    pub workflow_key: Option<Seq<char>>,
    pub workflow_id: Option<u128>,
    pub workflow_inputs: Seq<(Seq<char>, Json)>,
}

/// The value of `ScreenplayAct`.
pub struct ActV {
    pub id: u32,
    pub title: Seq<char>,
    pub summary: Seq<char>,
    pub shots: Seq<ShotV>,
}

/// The value of `ScreenplayDraft`.
pub struct DraftV {
    pub title: Seq<char>,
    pub genre: Seq<char>,
    pub logline: Seq<char>,
    pub visual_style: Seq<char>,
    pub style_tags: Seq<Seq<char>>,
    pub duration_minutes_bits: Option<u32>,
    pub defaults: DefaultsV,
    pub characters: Seq<CharacterV>,
    pub shots: Seq<ShotV>,
    pub acts: Seq<ActV>,
}

impl View for PromptDefaults {
    type V = DefaultsV;

    open spec fn view(&self) -> DefaultsV {
        DefaultsV {
            negative_prompt: self.negative_prompt@,
            frame_rate_bits: self.frame_rate_bits,
            width: self.width,
            height: self.height,
        }
    }
}

impl View for ScreenplayCharacter {
    type V = CharacterV;

    open spec fn view(&self) -> CharacterV {
        CharacterV {
            name: self.name@,
            role: self.role@,
            description: self.description@,
            visual_design: self.visual_design@,
        }
    }
}

impl View for ScreenplayShot {
    type V = ShotV;

    open spec fn view(&self) -> ShotV {
        ShotV {
            id: self.id,
            title: self.title@,
            duration_bits: self.duration_bits,
            location: self.location@,
            time_of_day: self.time_of_day@,
            camera: self.camera@,
            action: self.action@,
            visual_description: self.visual_description@,
            prompt: self.prompt@,
            negative_prompt: self.negative_prompt@,
            notes: self.notes@,
            workflow_key: opt_string_view(self.workflow_key),
            workflow_id: self.workflow_id,
            workflow_inputs: view_entries(self.workflow_inputs@),
        }
    }
}

/// The values of a sequence of shots.
pub open spec fn shots_view(s: Seq<ScreenplayShot>) -> Seq<ShotV> {
    s.map_values(|x: ScreenplayShot| x@)
}

impl View for ScreenplayAct {
    type V = ActV;

    open spec fn view(&self) -> ActV {
        ActV { id: self.id, title: self.title@, summary: self.summary@, shots: shots_view(self.shots@) }
    }
}

impl View for ScreenplayDraft {
    type V = DraftV;

    open spec fn view(&self) -> DraftV {
        DraftV {
            title: self.title@,
            genre: self.genre@,
            logline: self.logline@,
            visual_style: self.visual_style@,
            style_tags: strings_view(self.style_tags@),
            duration_minutes_bits: self.duration_minutes_bits,
            defaults: self.defaults@,
            characters: self.characters@.map_values(|c: ScreenplayCharacter| c@),
            shots: shots_view(self.shots@),
            acts: self.acts@.map_values(|a: ScreenplayAct| a@),
        }
    }
}

/// The generation defaults every converted draft starts from.
pub open spec fn standard_defaults() -> DefaultsV {
    DefaultsV {
        negative_prompt: "blurry, low quality"@,
        frame_rate_bits: DEFAULT_FRAME_RATE_BITS,
        width: 832,
        height: 480,
    }
}

/// The generation defaults every converted draft starts from.
pub fn standard_prompt_defaults() -> (r: PromptDefaults)
    ensures
        r@ == standard_defaults(),
{
    PromptDefaults {
        negative_prompt: String::from_str("blurry, low quality"),
        frame_rate_bits: DEFAULT_FRAME_RATE_BITS,
        width: 832,
        height: 480,
    }
}

/// The pieces `str::split("\n\n")` cuts `s` into, the first one started
/// with `cur`: matches are taken leftmost and do not overlap.
pub open spec fn split_from(s: Seq<char>, cur: Seq<char>) -> Seq<Seq<char>>
    decreases s.len(),
{
    if s.len() == 0 {
        seq![cur]
    } else if s.len() >= 2 && s[0] == '\n' && s[1] == '\n' {
        seq![cur] + split_from(s.subrange(2, s.len() as int), Seq::empty())
    } else {
        split_from(s.drop_first(), cur.push(s[0]))
    }
}

/// The trimmed pieces that are not blank, in order.
pub open spec fn nonblank_trimmed(pieces: Seq<Seq<char>>) -> Seq<Seq<char>>
    decreases pieces.len(),
{
    if pieces.len() == 0 {
        Seq::empty()
    } else if trim(pieces.last()).len() > 0 {
        nonblank_trimmed(pieces.drop_last()).push(trim(pieces.last()))
    } else {
        nonblank_trimmed(pieces.drop_last())
    }
}

/// The story beats of a script: its paragraphs, trimmed, blank ones left
/// out.
pub open spec fn story_beats(script: Seq<char>) -> Seq<Seq<char>> {
    nonblank_trimmed(split_from(script, Seq::empty()))
}

/// The text before the first line break.
pub open spec fn first_line(s: Seq<char>) -> Seq<char>
    decreases s.len(),
{
    if s.len() == 0 || s[0] == '\n' {
        Seq::empty()
    } else {
        seq![s[0]] + first_line(s.drop_first())
    }
}

/// The title of a beat: its first line, trimmed, or `Story Beat`.
pub open spec fn beat_title(block: Seq<char>) -> Seq<char> {
    if trim(first_line(block)).len() > 0 {
        trim(first_line(block))
    } else {
        "Story Beat"@
    }
}

/// A shot with only the text fields a free-text draft provides.
pub open spec fn plain_shot(id: u32, title: Seq<char>, action: Seq<char>, preview: Seq<char>) -> ShotV {
    ShotV {
        id,
        title,
        duration_bits: DEFAULT_SHOT_SECONDS_BITS,
        location: Seq::empty(),
        time_of_day: Seq::empty(),
        camera: Seq::empty(),
        action,
        visual_description: preview,
        prompt: preview,
        negative_prompt: "blurry, low quality"@,
        notes: Seq::empty(),
        workflow_key: None,
        workflow_id: None,
        workflow_inputs: Seq::empty(),
    }
}

/// The shot of beat number `idx` (from zero).
pub open spec fn beat_shot(idx: int, block: Seq<char>) -> ShotV {
    plain_shot((idx + 1) as u32, beat_title(block), block, preview_spec(block, 240))
}

/// The shots of a free-text script: one per beat, or a single opening shot
/// when there is no beat.
pub open spec fn legacy_shots(script: Seq<char>) -> Seq<ShotV> {
    let beats = story_beats(script);
    if beats.len() == 0 {
        seq![plain_shot(1, "Opening"@, preview_spec(script, 240), preview_spec(script, 240))]
    } else {
        Seq::new(beats.len(), |i: int| beat_shot(i, beats[i]))
    }
}

/// The draft's synopsis when it is not blank, else a preview of the script.
pub open spec fn logline_spec(synopsis: Option<Seq<char>>, script: Seq<char>) -> Seq<char> {
    match synopsis {
        Some(s) => if trim(s).len() > 0 {
            s
        } else {
            preview_spec(script, 180)
        },
        None => preview_spec(script, 180),
    }
}

/// Whether the logline can be made without cutting a character.
pub open spec fn logline_previewable(synopsis: Option<Seq<char>>, script: Seq<char>) -> bool {
    (synopsis matches Some(s) && trim(s).len() > 0) || previewable(script, 180)
}

/// Whether every preview of the free-text conversion falls between
/// characters.
pub open spec fn legacy_previewable(synopsis: Option<Seq<char>>, script: Seq<char>) -> bool {
    &&& logline_previewable(synopsis, script)
    &&& story_beats(script).len() == 0 ==> previewable(script, 240)
    &&& forall|i: int| 0 <= i < story_beats(script).len() ==> previewable(#[trigger] story_beats(script)[i], 240)
}

/// `legacy_screenplay_from_text`: a draft with one shot per paragraph of the
/// script.
pub open spec fn legacy_draft_spec(synopsis: Option<Seq<char>>, script: Seq<char>, metadata: Json) -> DraftV {
    let meta = metadata_spec(metadata);
    DraftV {
        title: meta.0,
        genre: meta.1,
        logline: logline_spec(synopsis, script),
        visual_style: meta.3,
        style_tags: meta.2,
        duration_minutes_bits: None,
        defaults: standard_defaults(),
        characters: Seq::empty(),
        shots: legacy_shots(script),
        acts: Seq::empty(),
    }
}

/// The paragraphs of a script (`str::split("\n\n")`).
fn split_paragraphs(s: &[char]) -> (r: Vec<Vec<char>>)
    ensures
        r@.map_values(|p: Vec<char>| p@) == split_from(s@, Seq::empty()),
{
    let mut pieces: Vec<Vec<char>> = Vec::new();
    let mut cur: Vec<char> = Vec::new();
    let n = s.len();
    let mut i: usize = 0;
    assert(s@.subrange(0, n as int) =~= s@);
    while i < n
        invariant
            n == s@.len(),
            i <= n,
            split_from(s@, Seq::empty()) == pieces@.map_values(|p: Vec<char>| p@) + split_from(
                s@.subrange(i as int, n as int),
                cur@,
            ),
        decreases n - i,
    {
        let ghost rest = s@.subrange(i as int, n as int);
        if i + 1 < n && s[i] == '\n' && s[i + 1] == '\n' {
            let ghost before = pieces@.map_values(|p: Vec<char>| p@);
            let ghost cv = cur@;
            assert(rest.subrange(2, rest.len() as int) =~= s@.subrange(i + 2, n as int));
            let done = cur;
            cur = Vec::new();
            pieces.push(done);
            assert(pieces@.map_values(|p: Vec<char>| p@) =~= before.push(cv));
            assert(before + split_from(rest, cv) =~= before.push(cv) + split_from(
                s@.subrange(i + 2, n as int),
                Seq::empty(),
            ));
            i = i + 2;
        } else {
            assert(rest.drop_first() =~= s@.subrange(i + 1, n as int));
            assert(rest[0] == s@[i as int]);
            cur.push(s[i]);
            i = i + 1;
        }
    }
    let ghost before = pieces@.map_values(|p: Vec<char>| p@);
    let ghost cv = cur@;
    pieces.push(cur);
    assert(pieces@.map_values(|p: Vec<char>| p@) =~= before.push(cv));
    assert(s@.subrange(n as int, n as int) =~= Seq::<char>::empty());
    pieces
}

/// The text before the first line break.
fn first_line_exec(s: &[char]) -> (r: Vec<char>)
    ensures
        r@ == first_line(s@),
{
    let mut r: Vec<char> = Vec::new();
    let mut i: usize = 0;
    while i < s.len() && s[i] != '\n'
        invariant
            i <= s@.len(),
            forall|k: int| 0 <= k < i ==> s@[k] != '\n',
            r@ == s@.subrange(0, i as int),
        decreases s@.len() - i,
    {
        r.push(s[i]);
        i = i + 1;
    }
    proof {
        lemma_first_line(s@, i as int);
    }
    r
}

proof fn lemma_first_line(s: Seq<char>, i: int)
    requires
        0 <= i <= s.len(),
        forall|k: int| 0 <= k < i ==> s[k] != '\n',
        i == s.len() || s[i] == '\n',
    ensures
        first_line(s) == s.subrange(0, i),
    decreases s.len(),
{
    if s.len() == 0 || s[0] == '\n' {
        assert(s.subrange(0, i) =~= Seq::<char>::empty());
    } else {
        let t = s.drop_first();
        lemma_first_line(t, i - 1);
        assert(seq![s[0]] + t.subrange(0, i - 1) =~= s.subrange(0, i));
    }
}


/// A shot with only the text fields a free-text draft provides.
fn make_plain_shot(id: u32, title: String, action: String, preview: String) -> (r: ScreenplayShot)
    ensures
        r@ == plain_shot(id, title@, action@, preview@),
{
    let prompt = preview.clone();
    ScreenplayShot {
        id,
        title,
        duration_bits: DEFAULT_SHOT_SECONDS_BITS,
        location: String::new(),
        time_of_day: String::new(),
        camera: String::new(),
        action,
        visual_description: preview,
        prompt,
        negative_prompt: String::from_str("blurry, low quality"),
        notes: String::new(),
        workflow_key: None,
        workflow_id: None,
        workflow_inputs: Vec::new(),
    }
}

/// The beats of a prefix of the pieces are a prefix of all the beats.
proof fn lemma_nonblank_prefix(p: Seq<Seq<char>>, k: int)
    requires
        0 <= k <= p.len(),
    ensures
        nonblank_trimmed(p.subrange(0, k)).len() <= nonblank_trimmed(p).len(),
        forall|i: int| 0 <= i < nonblank_trimmed(p.subrange(0, k)).len()
            ==> #[trigger] nonblank_trimmed(p.subrange(0, k))[i] == nonblank_trimmed(p)[i],
    decreases p.len() - k,
{
    if k == p.len() {
        assert(p.subrange(0, k) =~= p);
    } else {
        lemma_nonblank_prefix(p, k + 1);
        let a = p.subrange(0, k);
        let b = p.subrange(0, k + 1);
        assert(b.drop_last() =~= a);
        assert(b.last() == p[k]);
        if trim(p[k]).len() > 0 {
            assert(nonblank_trimmed(b) == nonblank_trimmed(a).push(trim(p[k])));
        } else {
            assert(nonblank_trimmed(b) == nonblank_trimmed(a));
        }
        assert forall|i: int| 0 <= i < nonblank_trimmed(a).len() implies #[trigger] nonblank_trimmed(a)[i]
            == nonblank_trimmed(p)[i] by {
            assert(nonblank_trimmed(b)[i] == nonblank_trimmed(a)[i]);
        }
    }
}

/// The title of a beat.
fn beat_title_exec(block: &[char]) -> (r: String)
    ensures
        r@ == beat_title(block@),
{
    let l = trim_vec(first_line_exec(block).as_slice());
    if l.len() > 0 {
        string_of(l.as_slice())
    } else {
        String::from_str("Story Beat")
    }
}

/// The logline of a draft: its synopsis when not blank, else a preview of
/// the script.
pub(crate) fn logline_exec(synopsis: &Option<String>, script: &String) -> (r: String)
    requires
        logline_previewable(opt_string_view(*synopsis), script@),
    ensures
        r@ == logline_spec(opt_string_view(*synopsis), script@),
{
    if let Some(s) = synopsis {
        let t = trim_vec(chars_of(s.as_str()).as_slice());
        if t.len() > 0 {
            return s.clone();
        }
    }
    truncate_preview(script.as_str(), 180)
}

/// `legacy_screenplay_from_text`: one shot per paragraph of the script
/// (a single opening shot when it has none), titled by the paragraph's
/// first line, with the metadata's title, genre and style.
pub fn legacy_screenplay_from_text(draft: LlmScreenplayDraft) -> (r: ScreenplayDraft)
    requires
        legacy_previewable(opt_string_view(draft.synopsis), draft.script@),
    ensures
        r@ == legacy_draft_spec(opt_string_view(draft.synopsis), draft.script@, draft.metadata@),
{
    let script = chars_of(draft.script.as_str());
    let pieces = split_paragraphs(script.as_slice());
    let ghost pv = pieces@.map_values(|p: Vec<char>| p@);
    let ghost beats = story_beats(draft.script@);
    let mut shots: Vec<ScreenplayShot> = Vec::new();
    let mut idx: usize = 0;
    let mut k: usize = 0;
    while k < pieces.len()
        invariant
            pv == pieces@.map_values(|p: Vec<char>| p@),
            pv == split_from(draft.script@, Seq::empty()),
            beats == story_beats(draft.script@),
            beats == nonblank_trimmed(pv),
            legacy_previewable(opt_string_view(draft.synopsis), draft.script@),
            k <= pieces@.len(),
            idx <= k,
            idx == nonblank_trimmed(pv.subrange(0, k as int)).len(),
            shots_view(shots@) == Seq::new(idx as nat, |i: int| beat_shot(i, beats[i])),
        decreases pieces@.len() - k,
    {
        proof {
            assert(pv.subrange(0, k + 1).drop_last() =~= pv.subrange(0, k as int));
            assert(pv.subrange(0, k + 1).last() == pieces@[k as int]@);
            lemma_nonblank_prefix(pv, k + 1);
        }
        let block = trim_vec(pieces[k].as_slice());
        if block.len() > 0 {
            proof {
                assert(nonblank_trimmed(pv.subrange(0, k + 1))[idx as int] == block@);
                assert(beats[idx as int] == block@);
                assert(previewable(beats[idx as int], 240));
            }
            let title = beat_title_exec(block.as_slice());
            let text = string_of(block.as_slice());
            let preview = truncate_preview(text.as_str(), 240);
            let id = (idx + 1) as u32;
            let shot = make_plain_shot(id, title, text, preview);
            let ghost before = shots_view(shots@);
            assert(shot@ == beat_shot(idx as int, beats[idx as int]));
            shots.push(shot);
            assert(shots_view(shots@) =~= before.push(beat_shot(idx as int, beats[idx as int])));
            assert(shots_view(shots@) =~= Seq::new((idx + 1) as nat, |i: int| beat_shot(i, beats[i])));
            idx = idx + 1;
        }
        k = k + 1;
    }
    assert(pv.subrange(0, pieces@.len() as int) =~= pv);
    if shots.len() == 0 {
        let preview = truncate_preview(draft.script.as_str(), 240);
        let action = preview.clone();
        let shot = make_plain_shot(1, String::from_str("Opening"), action, preview);
        shots.push(shot);
        assert(shots_view(shots@) =~= legacy_shots(draft.script@));
    } else {
        assert(shots_view(shots@) =~= legacy_shots(draft.script@));
    }
    let meta = extract_draft_metadata(&draft);
    let logline = logline_exec(&draft.synopsis, &draft.script);
    let (title, genre, style_tags, visual_style) = meta;
    let characters: Vec<ScreenplayCharacter> = Vec::new();
    let acts: Vec<ScreenplayAct> = Vec::new();
    let r = ScreenplayDraft {
        title,
        genre,
        logline,
        visual_style,
        style_tags,
        duration_minutes_bits: None,
        defaults: standard_prompt_defaults(),
        characters,
        shots,
        acts,
    };
    assert(r@.characters =~= Seq::<CharacterV>::empty());
    assert(r@.acts =~= Seq::<ActV>::empty());
    r
}

} // verus!
