//! Moving storyboard cards onto the timeline: which cards are ready, where
//! each clip goes (the first video track free at that time, else a new
//! overlay track), and the metadata the clips carry.

use vstd::prelude::*;
use crate::json::{lemma_view_entries, view_entries, Json, JsonValue};
use crate::keyed_map::KeyedMap;
use crate::storyboard::StoryboardCard;
use crate::text::{chars_of, eq_lit, lower, lower_vec, trim, trim_vec};
use crate::workflow_input::{to_json_spec, StoryboardInputValue};

verus! {

/// What a card's generated asset is.
#[derive(Clone, Copy, Debug, PartialEq, Eq, Structural)]
pub enum StoryboardAssetKind {
    Video,
    Image,
}

/// A still-image file extension, in any case.
pub open spec fn is_still_extension(ext: Seq<char>) -> bool {
    let e = lower(ext);
    ||| e == "png"@
    ||| e == "jpg"@
    ||| e == "jpeg"@
    ||| e == "gif"@
    ||| e == "webp"@
    ||| e == "bmp"@
    ||| e == "tif"@
    ||| e == "tiff"@
    ||| e == "exr"@
}

/// The kind of an asset with extension `ext`: a still image for an image
/// extension, else a video (a video extension, or anything unknown).
pub open spec fn asset_kind_for(ext: Option<Seq<char>>) -> StoryboardAssetKind {
    match ext {
        Some(e) => if is_still_extension(e) {
            StoryboardAssetKind::Image
        } else {
            StoryboardAssetKind::Video
        },
        None => StoryboardAssetKind::Video,
    }
}

/// The kind of an asset from its file extension; see `asset_kind_for`.
pub fn asset_kind_for_extension(ext: Option<&str>) -> (r: StoryboardAssetKind)
    ensures
        r == asset_kind_for(crate::input_spec::opt_str_view(ext)),
{
    match ext {
        Some(e) => {
            let l = lower_vec(chars_of(e).as_slice());
            let s = l.as_slice();
            if eq_lit(s, "png") || eq_lit(s, "jpg") || eq_lit(s, "jpeg") || eq_lit(s, "gif") || eq_lit(s, "webp")
                || eq_lit(s, "bmp") || eq_lit(s, "tif") || eq_lit(s, "tiff") || eq_lit(s, "exr") {
                StoryboardAssetKind::Image
            } else {
                StoryboardAssetKind::Video
            }
        },
        None => StoryboardAssetKind::Video,
    }
}

/// The kind of the asset at `path`, by the extension the platform's path
/// syntax gives it (see `possible_extension` and `asset_kind_for`); for a
/// plain file name that is the text after its last `.`, so `clip.png` is an
/// image and `clip` a video.
pub fn storyboard_detect_asset_kind(path: &str) -> (r: StoryboardAssetKind)
    ensures
        exists|ext: Option<Seq<char>>| r == #[trigger] asset_kind_for(ext) && crate::timeline::possible_extension(path@, ext),
        crate::timeline::plain_name(path@) ==> r == asset_kind_for(crate::timeline::plain_extension(path@)),
{
    let ext = crate::timeline::path_extension(path);
    let ghost w = match &ext {
        Some(e) => Some(e@),
        None => None::<Seq<char>>,
    };
    let r = match &ext {
        Some(e) => asset_kind_for_extension(Some(e.as_str())),
        None => asset_kind_for_extension(None),
    };
    assert(r == asset_kind_for(w) && crate::timeline::possible_extension(path@, w));
    r
}

/// What the project's asset table knows of an asset.
#[derive(Debug)]
pub struct AssetRecord {
    pub id: String,
    pub src_abs: String,
    pub duration_frames: Option<i64>,
}

/// A card ready to go onto the timeline.
#[derive(Debug)]
pub struct TransferEntry {
    pub card_id: u128,
    pub title: String,
    pub description: String,
    pub path: String,
    pub label: String,
    pub kind: StoryboardAssetKind,
    pub duration_frames: i64,
    pub media_frames: i64,
    pub workflow_inputs: KeyedMap<StoryboardInputValue>,
}

/// The file a card's clip uses: the asset table's path for it, else the
/// card's own.
pub open spec fn source_path_spec(lookup: Result<Option<AssetRecord>, String>, path: Seq<char>) -> Seq<char> {
    match lookup {
        Ok(Some(row)) => row.src_abs@,
        _ => path,
    }
}

/// The file a card's clip uses; see `source_path_spec`.
pub fn transfer_source_path(lookup: &Result<Option<AssetRecord>, String>, path: &str) -> (r: String)
    ensures
        r@ == source_path_spec(*lookup, path@),
{
    match lookup {
        Ok(Some(row)) => row.src_abs.clone(),
        _ => String::from_str(path),
    }
}

/// Why a card is not moved to the timeline, if it is not: no reference, no
/// duration, a failed lookup, or a missing file (checked in that order).
pub open spec fn skip_reason(card: StoryboardCard, duration_frames: i64, lookup: Result<Option<AssetRecord>, String>, source_exists: bool) -> Option<Seq<char>> {
    if trim(card.reference_path@).len() == 0 {
        Some("no generated asset"@)
    } else if duration_frames <= 0 {
        Some("duration is zero"@)
    } else if lookup is Err {
        Some("asset lookup failed: "@ + lookup->Err_0@)
    } else if !source_exists {
        Some("asset file missing on disk"@)
    } else {
        None
    }
}

/// The label of a card's clip: the asset's id, else the file's stem, else
/// the card's title.
pub open spec fn clip_label(lookup: Result<Option<AssetRecord>, String>, stem: Option<Seq<char>>, title: Seq<char>) -> Seq<char> {
    match lookup {
        Ok(Some(row)) => row.id@,
        _ => match stem {
            Some(s) => s,
            None => title,
        },
    }
}

/// The length of a card's media: the asset's own when it is positive, else
/// one frame for an image and the card's duration for a video.
pub open spec fn media_frames_spec(lookup: Result<Option<AssetRecord>, String>, kind: StoryboardAssetKind, duration_frames: i64) -> i64 {
    let own = match lookup {
        Ok(Some(row)) => row.duration_frames,
        _ => None,
    };
    match own {
        Some(f) if f > 0 => f,
        _ => match kind {
            StoryboardAssetKind::Image => 1,
            StoryboardAssetKind::Video => duration_frames,
        },
    }
}

/// Readies one card for the timeline: the entry to place, or
/// the card's title and why it is skipped (see `skip_reason`). The caller
/// gives what lies outside: the asset's kind, the card's duration in frames,
/// the asset table's answer for the trimmed reference path, whether the
/// source file (`transfer_source_path`) exists, and its stem.
pub fn prepare_transfer_card(
    card: &StoryboardCard,
    kind: StoryboardAssetKind,
    duration_frames: i64,
    lookup: &Result<Option<AssetRecord>, String>,
    source_exists: bool,
    source_stem: Option<String>,
) -> (r: Result<TransferEntry, (String, String)>)
    ensures
        match skip_reason(*card, duration_frames, *lookup, source_exists) {
            Some(reason) => r matches Err(s) && s.0@ == card.title@ && s.1@ == reason,
            None => r matches Ok(e) && {
                &&& e.card_id == card.id
                &&& e.title@ == card.title@
                &&& e.description@ == card.description@
                &&& e.path@ == source_path_spec(*lookup, trim(card.reference_path@))
                &&& e.label@ == clip_label(*lookup, crate::screenplay::opt_string_view(source_stem), card.title@)
                &&& e.kind == kind
                &&& e.duration_frames == duration_frames
                &&& e.media_frames == media_frames_spec(*lookup, kind, duration_frames)
                &&& e.workflow_inputs@ == card.workflow_inputs@
            },
        },
{
    let path = trim_vec(chars_of(card.reference_path.as_str()).as_slice());
    if path.len() == 0 {
        return Err((card.title.clone(), String::from_str("no generated asset")));
    }
    if duration_frames <= 0 {
        return Err((card.title.clone(), String::from_str("duration is zero")));
    }
    let row = match lookup {
        Err(e) => {
            return Err((card.title.clone(), crate::text::cat("asset lookup failed: ", e.as_str())));
        },
        Ok(row) => row,
    };
    if !source_exists {
        return Err((card.title.clone(), String::from_str("asset file missing on disk")));
    }
    let path_text = crate::text::string_of(path.as_slice());
    let source = transfer_source_path(lookup, path_text.as_str());
    let label = match row {
        Some(a) => a.id.clone(),
        None => match source_stem {
            Some(s) => s,
            None => card.title.clone(),
        },
    };
    let own = match row {
        Some(a) => a.duration_frames,
        None => None,
    };
    let media_frames = match own {
        Some(f) => if f > 0 {
            f
        } else {
            match kind {
                StoryboardAssetKind::Image => 1,
                StoryboardAssetKind::Video => duration_frames,
            }
        },
        None => match kind {
            StoryboardAssetKind::Image => 1,
            StoryboardAssetKind::Video => duration_frames,
        },
    };
    Ok(TransferEntry {
        card_id: card.id,
        title: card.title.clone(),
        description: card.description.clone(),
        path: source,
        label,
        kind,
        duration_frames,
        media_frames,
        workflow_inputs: crate::board::copy_inputs(&card.workflow_inputs),
    })
}

/// A stretch of frames on a track.
#[derive(Clone, Copy, Debug, PartialEq, Eq, Structural)]
pub struct FrameSpan {
    pub start: i64,
    pub duration: i64,
}

/// Where a clip goes. `track` indexes the candidate tracks: the video
/// tracks given, then the overlay tracks made during the transfer, in the
/// order they are made; `new_track` says that the overlay track is made
/// for this clip.
#[derive(Clone, Copy, Debug, PartialEq, Eq, Structural)]
pub struct PlannedClip {
    pub track: usize,
    pub new_track: bool,
    pub start: i64,
    pub duration: i64,
    pub media_duration: i64,
}

/// The stretch `[s, s + d)` meets the span `t`.
pub open spec fn overlaps(s: int, d: int, t: FrameSpan) -> bool {
    s < t.start + t.duration && t.start < s + d
}

/// A track's spans leave `[s, s + d)` free.
pub open spec fn is_free(spans: Seq<FrameSpan>, s: int, d: int) -> bool {
    forall|k: int| 0 <= k < spans.len() ==> !overlaps(s, d, #[trigger] spans[k])
}

/// The first track that leaves `[s, s + d)` free.
pub open spec fn first_free(occ: Seq<Seq<FrameSpan>>, s: int, d: int) -> Option<int>
    decreases occ.len(),
{
    if occ.len() == 0 {
        None
    } else {
        match first_free(occ.drop_last(), s, d) {
            Some(t) => Some(t),
            None => if is_free(occ.last(), s, d) {
                Some(occ.len() - 1)
            } else {
                None
            },
        }
    }
}

/// `x.max(1)`.
pub open spec fn at_least_one(x: i64) -> i64 {
    if x < 1 {
        1
    } else {
        x
    }
}

/// `a.saturating_add(b)` for `b` positive.
pub open spec fn saturating_add_spec(a: i64, b: i64) -> i64 {
    if a + b > i64::MAX {
        i64::MAX
    } else {
        (a + b) as i64
    }
}

/// The state of a placement: what each candidate track holds, where the
/// next clip starts, and the clips placed so far.
pub struct PlanV {
    pub occ: Seq<Seq<FrameSpan>>,
    pub cursor: i64,
    pub clips: Seq<PlannedClip>,
}

/// One clip placed: at the cursor, at least a frame long, on the first
/// track free there, else on a new overlay track.
pub open spec fn plan_step(st: PlanV, e: (i64, i64)) -> PlanV {
    let d = at_least_one(e.0);
    let span = FrameSpan { start: st.cursor, duration: d };
    let next = saturating_add_spec(st.cursor, d);
    match first_free(st.occ, st.cursor as int, d as int) {
        Some(t) => PlanV {
            occ: st.occ.update(t, st.occ[t].push(span)),
            cursor: next,
            clips: st.clips.push(
                PlannedClip { track: t as usize, new_track: false, start: st.cursor, duration: d, media_duration: at_least_one(e.1) },
            ),
        },
        None => PlanV {
            occ: st.occ.push(seq![span]),
            cursor: next,
            clips: st.clips.push(
                PlannedClip {
                    track: st.occ.len() as usize,
                    new_track: true,
                    start: st.cursor,
                    duration: d,
                    media_duration: at_least_one(e.1),
                },
            ),
        },
    }
}

/// The placement of entries (duration and media length in frames) after
/// the timeline's end `start` (at least zero).
pub open spec fn plan_spec(tracks: Seq<Seq<FrameSpan>>, start: i64, entries: Seq<(i64, i64)>) -> PlanV
    decreases entries.len(),
{
    if entries.len() == 0 {
        PlanV {
            occ: tracks,
            cursor: if start < 0 {
                0
            } else {
                start
            },
            clips: Seq::empty(),
        }
    } else {
        plan_step(plan_spec(tracks, start, entries.drop_last()), entries.last())
    }
}

/// The spans of each track.
pub open spec fn tracks_view(v: Seq<Vec<FrameSpan>>) -> Seq<Seq<FrameSpan>> {
    v.map_values(|t: Vec<FrameSpan>| t@)
}

/// Whether the track leaves `[s, s + d)` free.
fn track_is_free(spans: &Vec<FrameSpan>, s: i64, d: i64) -> (r: bool)
    ensures
        r == is_free(spans@, s as int, d as int),
{
    let mut k: usize = 0;
    while k < spans.len()
        invariant
            k <= spans@.len(),
            forall|j: int| 0 <= j < k ==> !overlaps(s as int, d as int, #[trigger] spans@[j]),
        decreases spans@.len() - k,
    {
        let t = spans[k];
        let t_end = t.start as i128 + t.duration as i128;
        let s_end = s as i128 + d as i128;
        if (s as i128) < t_end && (t.start as i128) < s_end {
            assert(overlaps(s as int, d as int, spans@[k as int]));
            return false;
        }
        k = k + 1;
    }
    true
}

/// The first track free at `[s, s + d)`.
fn find_free_track(occ: &Vec<Vec<FrameSpan>>, s: i64, d: i64) -> (r: Option<usize>)
    ensures
        match r {
            Some(t) => first_free(tracks_view(occ@), s as int, d as int) == Some(t as int) && t < occ@.len(),
            None => first_free(tracks_view(occ@), s as int, d as int) is None,
        },
{
    let ghost ov = tracks_view(occ@);
    let mut t: usize = 0;
    while t < occ.len()
        invariant
            ov == tracks_view(occ@),
            ov.len() == occ@.len(),
            t <= occ@.len(),
            first_free(ov.subrange(0, t as int), s as int, d as int) is None,
        decreases occ@.len() - t,
    {
        let ghost pre = ov.subrange(0, t + 1);
        assert(pre.drop_last() =~= ov.subrange(0, t as int));
        assert(pre.last() == occ@[t as int]@);
        if track_is_free(&occ[t], s, d) {
            proof {
                lemma_first_free_prefix(ov, s as int, d as int, t + 1);
            }
            return Some(t);
        }
        t = t + 1;
    }
    assert(ov.subrange(0, t as int) =~= ov);
    None
}

proof fn lemma_first_free_prefix(occ: Seq<Seq<FrameSpan>>, s: int, d: int, k: int)
    requires
        0 <= k <= occ.len(),
        first_free(occ.subrange(0, k), s, d) is Some,
    ensures
        first_free(occ, s, d) == first_free(occ.subrange(0, k), s, d),
    decreases occ.len() - k,
{
    if k < occ.len() {
        assert(occ.subrange(0, k + 1).drop_last() =~= occ.subrange(0, k));
        lemma_first_free_prefix(occ, s, d, k + 1);
    } else {
        assert(occ.subrange(0, k) =~= occ);
    }
}

/// The clips of a storyboard transfer placed on the timeline: one per entry
/// (its duration in frames and its media's length), in order, from the
/// timeline's end `start` (at least zero), each at least a frame long and
/// right after the previous one, on the first candidate track free at that
/// time (see `plan_spec`), else on an overlay track made for it.
pub fn plan_transfer_placements(tracks: &Vec<Vec<FrameSpan>>, start: i64, entries: &Vec<(i64, i64)>) -> (r: Vec<PlannedClip>)
    requires
        tracks@.len() + entries@.len() <= usize::MAX,
    ensures
        r@ == plan_spec(tracks_view(tracks@), start, entries@).clips,
{
    let mut occ: Vec<Vec<FrameSpan>> = Vec::new();
    let mut t: usize = 0;
    while t < tracks.len()
        invariant
            t <= tracks@.len(),
            occ@.len() == t,
            forall|j: int| 0 <= j < t ==> #[trigger] occ@[j]@ == tracks@[j]@,
        decreases tracks@.len() - t,
    {
        let src = &tracks[t];
        let mut copy: Vec<FrameSpan> = Vec::new();
        let mut k: usize = 0;
        while k < src.len()
            invariant
                k <= src@.len(),
                copy@ == src@.subrange(0, k as int),
            decreases src@.len() - k,
        {
            copy.push(src[k]);
            k = k + 1;
            assert(copy@ =~= src@.subrange(0, k as int));
        }
        assert(copy@ =~= src@);
        occ.push(copy);
        t = t + 1;
    }
    assert(tracks_view(occ@) =~= tracks_view(tracks@));
    let mut cursor: i64 = if start < 0 {
        0
    } else {
        start
    };
    let mut out: Vec<PlannedClip> = Vec::new();
    let ghost tv = tracks_view(tracks@);
    let n = entries.len();
    let mut i: usize = 0;
    while i < n
        invariant
            n == entries@.len(),
            tracks@.len() + n <= usize::MAX,
            i <= n,
            tv == tracks_view(tracks@),
            occ@.len() <= tracks@.len() + i,
            cursor >= 0,
            ({
                let st = plan_spec(tv, start, entries@.subrange(0, i as int));
                &&& tracks_view(occ@) == st.occ
                &&& cursor == st.cursor
                &&& out@ == st.clips
            }),
        decreases n - i,
    {
        proof {
            assert(entries@.subrange(0, i + 1).drop_last() =~= entries@.subrange(0, i as int));
            assert(entries@.subrange(0, i + 1).last() == entries@[i as int]);
        }
        let (dur, media) = entries[i];
        let d: i64 = if dur < 1 {
            1
        } else {
            dur
        };
        let m: i64 = if media < 1 {
            1
        } else {
            media
        };
        let span = FrameSpan { start: cursor, duration: d };
        let ghost before = tracks_view(occ@);
        match find_free_track(&occ, cursor, d) {
            Some(k) => {
                let mut spans = occ.remove(k);
                spans.push(span);
                occ.insert(k, spans);
                proof {
                    assert(tracks_view(occ@) =~= before.update(k as int, before[k as int].push(span)));
                }
                out.push(PlannedClip { track: k, new_track: false, start: cursor, duration: d, media_duration: m });
            },
            None => {
                let track = occ.len();
                let mut spans: Vec<FrameSpan> = Vec::new();
                spans.push(span);
                occ.push(spans);
                proof {
                    assert(tracks_view(occ@) =~= before.push(seq![span]));
                }
                out.push(PlannedClip { track, new_track: true, start: cursor, duration: d, media_duration: m });
            },
        }
        cursor = if cursor > i64::MAX - d {
            i64::MAX
        } else {
            cursor + d
        };
        i = i + 1;
    }
    assert(entries@.subrange(0, n as int) =~= entries@);
    out
}

/// `StoryboardInputValue::to_json` of each member, as an object.
pub open spec fn inputs_json(members: Seq<(String, StoryboardInputValue)>) -> Seq<(Seq<char>, Json)>
    decreases members.len(),
{
    if members.len() == 0 {
        Seq::empty()
    } else {
        inputs_json(members.drop_last()).push((members.last().0@, to_json_spec(members.last().1@)))
    }
}

/// The object of a card's input values, as JSON.
pub fn inputs_object(inputs: &KeyedMap<StoryboardInputValue>) -> (r: Vec<(String, JsonValue)>)
    ensures
        view_entries(r@) == inputs_json(inputs.members()),
{
    let n = inputs.len();
    let ghost members = inputs.members();
    let mut out: Vec<(String, JsonValue)> = Vec::new();
    let mut i: usize = 0;
    while i < n
        invariant
            n == members.len(),
            members == inputs.members(),
            i <= n,
            view_entries(out@) == inputs_json(members.subrange(0, i as int)),
        decreases n - i,
    {
        let (k, v) = inputs.member_at(i);
        proof {
            assert(members.subrange(0, i + 1).drop_last() =~= members.subrange(0, i as int));
        }
        let ghost old_out = out@;
        out.push((k.clone(), v.to_json()));
        proof {
            assert(out@.drop_last() =~= old_out);
        }
        i = i + 1;
    }
    assert(members.subrange(0, n as int) =~= members);
    out
}

/// The metadata of a transferred card's clip.
pub open spec fn clip_metadata_spec(e: TransferEntry) -> Json {
    Json::Obj(
        seq![
            ("source"@, Json::Str("storyboard"@)),
            ("card_id"@, Json::Str(crate::ids::uuid_text(e.card_id))),
            ("card_title"@, Json::Str(e.title@)),
            ("card_description"@, Json::Str(e.description@)),
            ("reference_path"@, Json::Str(e.path@)),
            ("workflow_inputs"@, Json::Obj(inputs_json(e.workflow_inputs.members()))),
        ],
    )
}

/// The metadata of a transferred card's clip: where it comes from, the
/// card, its file and its input values.
pub fn storyboard_clip_metadata(e: &TransferEntry) -> (r: JsonValue)
    ensures
        r@ == clip_metadata_spec(*e),
{
    let inputs = inputs_object(&e.workflow_inputs);
    let fields = vec![
        (String::from_str("source"), JsonValue::String(String::from_str("storyboard"))),
        (String::from_str("card_id"), JsonValue::String(crate::ids::uuid_string(e.card_id))),
        (String::from_str("card_title"), JsonValue::String(e.title.clone())),
        (String::from_str("card_description"), JsonValue::String(e.description.clone())),
        (String::from_str("reference_path"), JsonValue::String(e.path.clone())),
        (String::from_str("workflow_inputs"), JsonValue::Object(inputs)),
    ];
    proof {
        lemma_view_entries(fields@);
        assert(view_entries(fields@) =~= clip_metadata_spec(*e)->Obj_0);
    }
    JsonValue::Object(fields)
}

/// The metadata of a transferred card's timeline node.
pub open spec fn node_metadata_spec(card_id: u128, kind: StoryboardAssetKind) -> Json {
    Json::Obj(
        seq![
            ("source"@, Json::Str("storyboard"@)),
            ("card_id"@, Json::Str(crate::ids::uuid_text(card_id))),
            ("asset_kind"@, Json::Str(
                match kind {
                    StoryboardAssetKind::Video => "video"@,
                    StoryboardAssetKind::Image => "image"@,
                },
            )),
        ],
    )
}

/// The metadata of a transferred card's timeline node: where it comes
/// from, the card, and whether it is a video or an image.
pub fn storyboard_node_metadata(card_id: u128, kind: StoryboardAssetKind) -> (r: JsonValue)
    ensures
        r@ == node_metadata_spec(card_id, kind),
{
    let kind_text = match kind {
        StoryboardAssetKind::Video => String::from_str("video"),
        StoryboardAssetKind::Image => String::from_str("image"),
    };
    let fields = vec![
        (String::from_str("source"), JsonValue::String(String::from_str("storyboard"))),
        (String::from_str("card_id"), JsonValue::String(crate::ids::uuid_string(card_id))),
        (String::from_str("asset_kind"), JsonValue::String(kind_text)),
    ];
    proof {
        lemma_view_entries(fields@);
        assert(view_entries(fields@) =~= node_metadata_spec(card_id, kind)->Obj_0);
    }
    JsonValue::Object(fields)
}

/// The notices after a transfer to the timeline: how many shots were
/// added, and, when cards were skipped, how many and the first titles (see
/// `skipped_preview`), after `: ` when there are any to show.
pub fn storyboard_transfer_alerts(added: usize, skipped: &Vec<(String, String)>) -> (r: (String, Option<String>))
    ensures
        r.0@ == "Transferred "@ + crate::text::nat_decimal(added as nat) + " storyboard "@ + (if added == 1 {
            "shot"@
        } else {
            "shots"@
        }) + " to the timeline."@,
        crate::screenplay::opt_string_view(r.1) == if skipped@.len() > 0 {
            let p = crate::comfy_queue::skipped_preview(crate::comfy_queue::failures_view(skipped@));
            Some("Skipped "@ + crate::text::nat_decimal(skipped@.len()) + " card(s)"@ + if p.len() > 0 {
                ": "@ + p
            } else {
                Seq::<char>::empty()
            })
        } else {
            None
        },
{
    let count = crate::text::u64_decimal_string(added as u64);
    let label = if added == 1 {
        "shot"
    } else {
        "shots"
    };
    let head = crate::text::cat3("Transferred ", count.as_str(), " storyboard ");
    let done = crate::text::cat3(head.as_str(), label, " to the timeline.");
    let n = skipped.len();
    let note = if n > 0 {
        let p = crate::comfy_queue::skipped_preview_text(skipped);
        let nd = crate::text::u64_decimal_string(n as u64);
        let msg = crate::text::cat3("Skipped ", nd.as_str(), " card(s)");
        if chars_of(p.as_str()).len() > 0 {
            Some(crate::text::cat3(msg.as_str(), ": ", p.as_str()))
        } else {
            Some(msg)
        }
    } else {
        None
    };
    (done, note)
}

} // verus!
