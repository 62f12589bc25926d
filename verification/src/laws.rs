//! Properties that hold across the library's operations.

use vstd::prelude::*;
use crate::board::sync_result;
use crate::comfy_prompt::{node_is_ui_only, strip_ui_only};
use crate::storyboard::{spec_keys, synced_inputs, synced_value, transfer_value, transfers};
use crate::workflow_input::{input_value_eq, inputs_eq, matches_kind_spec, InputValue};
use crate::workflow_preset::InputSpecView;
use crate::naming::{collapse_dashes, dashify, sanitize_spec, trim_dashes_end, trim_dashes_start};
use crate::text::is_ascii_alnum;
use crate::collab::{clock_get, clock_of, ops_since, OperationV};
use crate::chat::{trimmed_history, ChatRole, CHAT_HISTORY_LIMIT};
use crate::cloud_monitor::{advanced, monitor_log, PhaseAgg, MONITOR_LOG_LIMIT};
use crate::storyboard::StoryboardCard;
use crate::cloud_job::{finished_body, short_id, tagged_body, tagged_inputs, tagged_node, tagged_prompt, with_client_id};
use crate::json::{get, insert, lemma_get_insert_other, lemma_get_insert_same, lemma_insert_present, Json};
use crate::text::{contains, is_ws, occurs_at, trim, trim_end, trim_start};
use crate::board::{is_settled, last_workflow, lookup_workflow};
use crate::storyboard::StoryboardWorkflowPreset;
use crate::comfy_jobs::{after_queue, below_one_percent, listed, ComfyJobInfo, ComfyJobStatus};
use crate::transfer::{first_free, is_free, overlaps, plan_spec, FrameSpan, PlannedClip};
use crate::card_editor::{form_layout, inline_input, is_runway_text, prepared_value, section_of, skipped_input};
use crate::chat::{pushed_log, SCREENPLAY_LOG_LIMIT};
use crate::workflow_input::{default_for_kind_spec, StoryboardWorkflowInputKind};
use crate::workflow_preset::StoryboardWorkflowInputSpec;
use crate::workflow_preset::{class_of, collect_specs, inputs_specs, node_specs};
use crate::input_spec::{is_gemini_spec, is_output_spec, node_title_spec};
use crate::text::lower;
use crate::comfy_prompt::{add_absent, array_widget_pairs, inputs_from, node_inputs, widget_keys, widget_pairs};
use crate::structured::{clean_of, cleaned_names, dialogue_notes, opt_part, shot_characters, shot_notes, sound_notes, StructuredDialogueLine, StructuredShot};
use crate::screenplay::opt_string_view;
use crate::sorted::{sorted_unique, strictly_sorted};
use crate::patch::{card_ctx, is_positive_node, patch_inputs, patch_node, patch_nodes, patched_prompt_spec, set_if_present, set_if_textual, set_override, PatchCtx};
use crate::comfy_prompt::num_of_i64;
use crate::json::{has_key, key_index, lemma_same_keys, Num};
use crate::comfy_prompt::obj_member;
use crate::timeline::{clip_path, item_spec, Fps, ItemKindV, TimelineNode, TrackKind};

verus! {

/// Index `i` is the last spec with its key.
pub open spec fn last_with_key(specs: Seq<InputSpecView>, i: int) -> bool {
    &&& 0 <= i < specs.len()
    &&& forall|j: int| i < j < specs.len() ==> (#[trigger] specs[j]).map_key != specs[i].map_key
}

/// After a sync, an input's value is the one its last spec gives it.
proof fn lemma_synced_last(specs: Seq<InputSpecView>, x: Map<Seq<char>, InputValue>, i: int)
    requires
        last_with_key(specs, i),
    ensures
        synced_inputs(specs, x).dom().contains(specs[i].map_key),
        synced_inputs(specs, x)[specs[i].map_key] == synced_value(specs[i], x),
    decreases specs.len(),
{
    if i < specs.len() - 1 {
        let p = specs.drop_last();
        assert forall|j: int| i < j < p.len() implies (#[trigger] p[j]).map_key != p[i].map_key by {
            assert(p[j] == specs[j]);
        }
        lemma_synced_last(p, x, i);
        assert(specs[specs.len() - 1].map_key != specs[i].map_key);
    }
}

/// Every key of the specs has a last spec.
proof fn lemma_last_index(specs: Seq<InputSpecView>, k: Seq<char>) -> (i: int)
    requires
        spec_keys(specs).contains(k),
    ensures
        last_with_key(specs, i),
        specs[i].map_key == k,
    decreases specs.len(),
{
    if specs.last().map_key == k {
        (specs.len() - 1) as int
    } else {
        let p = specs.drop_last();
        let w = choose|w: int| 0 <= w < specs.len() && specs[w].map_key == k;
        assert(w < specs.len() - 1);
        assert(p[w] == specs[w]);
        assert(spec_keys(p).contains(k));
        let i = lemma_last_index(p, k);
        assert forall|j: int| i < j < specs.len() implies (#[trigger] specs[j]).map_key != specs[i].map_key by {
            if j < specs.len() - 1 {
                assert(p[j] == specs[j]);
            }
        }
        i
    }
}

/// Syncing a card's inputs twice with one workflow gives what syncing once
/// gives.
pub proof fn law_sync_idempotent(specs: Seq<InputSpecView>, inputs: Map<Seq<char>, InputValue>)
    ensures
        synced_inputs(specs, synced_inputs(specs, inputs)) == synced_inputs(specs, inputs),
        sync_result(specs, sync_result(specs, inputs)) == sync_result(specs, inputs),
{
    let m2 = synced_inputs(specs, inputs);
    let m3 = synced_inputs(specs, m2);
    crate::storyboard::lemma_synced_dom(specs, inputs);
    crate::storyboard::lemma_synced_dom(specs, m2);
    assert forall|k: Seq<char>| #[trigger] m3.dom().contains(k) implies m3[k] == m2[k] by {
        let i = lemma_last_index(specs, k);
        lemma_synced_last(specs, inputs, i);
        lemma_synced_last(specs, m2, i);
    }
    assert(m3 =~= m2);
}

/// Syncing a card a second time with the same workflow reports no change
/// and leaves its inputs as the first sync left them (its input errors are
/// already empty then), provided each value the first sync leaves equals
/// itself (a double that reads as NaN does not, here as with `f64 ==`).
/// Without a workflow the first sync leaves no inputs and no errors, so the
/// second reports nothing either.
pub proof fn law_second_sync_reports_no_change(specs: Seq<InputSpecView>, inputs: Map<Seq<char>, InputValue>)
    requires
        forall|k: Seq<char>| #[trigger] sync_result(specs, inputs).dom().contains(k) ==> input_value_eq(
            sync_result(specs, inputs)[k],
            sync_result(specs, inputs)[k],
        ),
    ensures
        ({
            let first = sync_result(specs, inputs);
            &&& inputs_eq(synced_inputs(specs, first), first)
            &&& sync_result(specs, first) == first
        }),
        !(Map::<Seq<char>, InputValue>::empty() != Map::<Seq<char>, InputValue>::empty()
            || Map::<Seq<char>, Seq<char>>::empty() != Map::<Seq<char>, Seq<char>>::empty()),
{
    law_sync_idempotent(specs, inputs);
    let first = sync_result(specs, inputs);
    let synced = synced_inputs(specs, inputs);
    if !inputs_eq(synced, inputs) {
        assert(first == synced);
        assert(synced_inputs(specs, first) == first);
        assert(inputs_eq(first, first));
    }
}

/// The carried-over values hold, for an input's key, the value its last
/// spec takes.
proof fn lemma_transfers_last(
    specs: Seq<InputSpecView>,
    old_specs: Seq<InputSpecView>,
    ov: Map<Seq<char>, InputValue>,
    i: int,
)
    requires
        last_with_key(specs, i),
        transfer_value(specs[i], old_specs, ov) is Some,
    ensures
        transfers(specs, old_specs, ov).dom().contains(specs[i].map_key),
        transfers(specs, old_specs, ov)[specs[i].map_key] == transfer_value(specs[i], old_specs, ov).unwrap(),
    decreases specs.len(),
{
    if i < specs.len() - 1 {
        let p = specs.drop_last();
        assert forall|j: int| i < j < p.len() implies (#[trigger] p[j]).map_key != p[i].map_key by {
            assert(p[j] == specs[j]);
        }
        lemma_transfers_last(p, old_specs, ov, i);
        assert(specs[specs.len() - 1].map_key != specs[i].map_key);
    }
}

/// Refreshing a card with the workflow it already uses keeps every value
/// that has its input's kind, whatever the card's other values.
pub proof fn law_refresh_keeps_fitting_values(
    specs: Seq<InputSpecView>,
    inputs: Map<Seq<char>, InputValue>,
    i: int,
)
    requires
        last_with_key(specs, i),
        inputs.dom().contains(specs[i].map_key),
        matches_kind_spec(inputs[specs[i].map_key], specs[i].kind),
    ensures
        ({
            let ov = inputs.restrict(spec_keys(specs));
            let after = sync_result(specs, inputs).union_prefer_right(transfers(specs, specs, ov));
            &&& after.dom().contains(specs[i].map_key)
            &&& after[specs[i].map_key] == inputs[specs[i].map_key]
        }),
{
    let k = specs[i].map_key;
    let ov = inputs.restrict(spec_keys(specs));
    assert(spec_keys(specs).contains(k));
    assert(ov.dom().contains(k));
    assert(transfer_value(specs[i], specs, ov) == Some(inputs[k]));
    lemma_transfers_last(specs, specs, ov, i);
}

/// Stripping keeps exactly the nodes that are not UI-only, in order, so
/// stripping again changes nothing.
pub proof fn law_strip_removes_only_ui_nodes(p: Seq<(Seq<char>, crate::json::Json)>)
    ensures
        strip_ui_only(p) == p.filter(|e: (Seq<char>, crate::json::Json)| !node_is_ui_only(e.1)),
        forall|j: int| 0 <= j < strip_ui_only(p).len() ==> !node_is_ui_only(#[trigger] strip_ui_only(p)[j].1),
        strip_ui_only(strip_ui_only(p)) == strip_ui_only(p),
    decreases p.len(),
{
    let f = |e: (Seq<char>, crate::json::Json)| !node_is_ui_only(e.1);
    if p.len() > 0 {
        law_strip_removes_only_ui_nodes(p.drop_last());
        reveal(Seq::filter);
        assert(p.filter(f) == if f(p.last()) {
            p.drop_last().filter(f).push(p.last())
        } else {
            p.drop_last().filter(f)
        });
    } else {
        reveal(Seq::filter);
        assert(p.filter(f) =~= p);
    }
    lemma_filter_all_kept(strip_ui_only(p));
}

/// Stripping a prompt without UI-only nodes changes nothing.
proof fn lemma_filter_all_kept(p: Seq<(Seq<char>, crate::json::Json)>)
    requires
        forall|j: int| 0 <= j < p.len() ==> !node_is_ui_only(#[trigger] p[j].1),
    ensures
        strip_ui_only(p) == p,
    decreases p.len(),
{
    if p.len() > 0 {
        let q = p.drop_last();
        assert forall|j: int| 0 <= j < q.len() implies !node_is_ui_only(#[trigger] q[j].1) by {
            assert(q[j] == p[j]);
        }
        lemma_filter_all_kept(q);
        assert(!node_is_ui_only(p[p.len() - 1].1));
        assert(q.push(p.last()) =~= p);
    }
}


/// A file-name component as the editor writes them: ASCII letters, digits
/// and single dashes, neither starting nor ending with a dash, never empty.
pub open spec fn is_clean_component(s: Seq<char>) -> bool {
    &&& s.len() > 0
    &&& forall|i: int| 0 <= i < s.len() ==> is_ascii_alnum(#[trigger] s[i]) || s[i] == '-'
    &&& s[0] != '-'
    &&& s.last() != '-'
    &&& forall|i: int| 0 <= i < s.len() - 1 ==> !(#[trigger] s[i] == '-' && s[i + 1] == '-')
}

/// Letters, digits and dashes only, no two dashes in a row.
pub open spec fn dash_clean(s: Seq<char>) -> bool {
    &&& forall|i: int| 0 <= i < s.len() ==> is_ascii_alnum(#[trigger] s[i]) || s[i] == '-'
    &&& forall|i: int| 0 <= i < s.len() - 1 ==> !(#[trigger] s[i] == '-' && s[i + 1] == '-')
}

proof fn lemma_collapse_clean(s: Seq<char>)
    requires
        forall|i: int| 0 <= i < s.len() ==> is_ascii_alnum(#[trigger] s[i]) || s[i] == '-',
    ensures
        dash_clean(collapse_dashes(s)),
    decreases s.len(),
{
    if s.len() > 0 {
        let p = s.drop_last();
        assert forall|i: int| 0 <= i < p.len() implies is_ascii_alnum(#[trigger] p[i]) || p[i] == '-' by {
            assert(p[i] == s[i]);
        }
        lemma_collapse_clean(p);
        let c = collapse_dashes(p);
        let r = collapse_dashes(s);
        if !(s.last() == '-' && c.len() > 0 && c.last() == '-') {
            assert(r == c.push(s.last()));
            assert forall|i: int| 0 <= i < r.len() - 1 implies !(#[trigger] r[i] == '-' && r[i + 1] == '-') by {
                if i < c.len() - 1 {
                    assert(r[i] == c[i] && r[i + 1] == c[i + 1]);
                }
            }
            assert forall|i: int| 0 <= i < r.len() implies is_ascii_alnum(#[trigger] r[i]) || r[i] == '-' by {
                if i < c.len() {
                    assert(r[i] == c[i]);
                }
            }
        }
    }
}

proof fn lemma_trim_start_suffix(s: Seq<char>) -> (k: int)
    ensures
        0 <= k <= s.len(),
        trim_dashes_start(s) == s.subrange(k, s.len() as int),
        trim_dashes_start(s).len() == 0 || trim_dashes_start(s)[0] != '-',
    decreases s.len(),
{
    if s.len() > 0 && s[0] == '-' {
        let k = lemma_trim_start_suffix(s.drop_first());
        assert(s.drop_first().subrange(k, s.len() - 1) =~= s.subrange(k + 1, s.len() as int));
        k + 1
    } else {
        assert(s.subrange(0, s.len() as int) =~= s);
        0
    }
}

proof fn lemma_trim_end_prefix(s: Seq<char>) -> (k: int)
    ensures
        0 <= k <= s.len(),
        trim_dashes_end(s) == s.subrange(0, k),
        trim_dashes_end(s).len() == 0 || trim_dashes_end(s).last() != '-',
    decreases s.len(),
{
    if s.len() > 0 && s.last() == '-' {
        let k = lemma_trim_end_prefix(s.drop_last());
        assert(s.drop_last().subrange(0, k) =~= s.subrange(0, k));
        k
    } else {
        assert(s.subrange(0, s.len() as int) =~= s);
        s.len() as int
    }
}

/// `sanitize_filename_component` always gives a clean component.
pub proof fn law_sanitize_gives_clean_component(input: Seq<char>)
    ensures
        is_clean_component(sanitize_spec(input)),
{
    let d = dashify(input);
    assert forall|i: int| 0 <= i < d.len() implies is_ascii_alnum(#[trigger] d[i]) || d[i] == '-' by {}
    lemma_collapse_clean(d);
    let c = collapse_dashes(d);
    let a = lemma_trim_start_suffix(c);
    let t = trim_dashes_start(c);
    let b = lemma_trim_end_prefix(t);
    let r = trim_dashes_end(t);
    assert forall|i: int| 0 <= i < r.len() implies is_ascii_alnum(#[trigger] r[i]) || r[i] == '-' by {
        assert(r[i] == t[i]);
        assert(t[i] == c[i + a]);
    }
    assert forall|i: int| 0 <= i < r.len() - 1 implies !(#[trigger] r[i] == '-' && r[i + 1] == '-') by {
        assert(r[i] == c[i + a]);
        assert(r[i + 1] == c[i + 1 + a]);
    }
    if r.len() > 0 {
        assert(r[0] == t[0]);
    } else {
        reveal_strlit("storyboard");
        let w = "storyboard"@;
        assert forall|i: int| 0 <= i < w.len() implies is_ascii_alnum(#[trigger] w[i]) || w[i] == '-' by {}
    }
}

/// Collapsing dashes changes nothing without two dashes in a row.
proof fn lemma_collapse_noop(s: Seq<char>)
    requires
        forall|i: int| 0 <= i < s.len() - 1 ==> !(#[trigger] s[i] == '-' && s[i + 1] == '-'),
    ensures
        collapse_dashes(s) == s,
    decreases s.len(),
{
    if s.len() > 0 {
        let p = s.drop_last();
        assert forall|i: int| 0 <= i < p.len() - 1 implies !(#[trigger] p[i] == '-' && p[i + 1] == '-') by {
            assert(p[i] == s[i] && p[i + 1] == s[i + 1]);
        }
        lemma_collapse_noop(p);
        if p.len() > 0 {
            assert(p.last() == s[s.len() - 2]);
        }
        assert(p.push(s.last()) =~= s);
    }
}

/// Sanitizing a clean component gives it back, so sanitizing twice is
/// sanitizing once.
pub proof fn law_sanitize_is_idempotent(input: Seq<char>)
    ensures
        sanitize_spec(sanitize_spec(input)) == sanitize_spec(input),
{
    law_sanitize_gives_clean_component(input);
    let s = sanitize_spec(input);
    let d = dashify(s);
    assert(d =~= s) by {
        assert forall|i: int| 0 <= i < s.len() implies d[i] == s[i] by {
            assert(is_ascii_alnum(s[i]) || s[i] == '-');
        }
    }
    lemma_collapse_noop(s);
    assert(trim_dashes_start(s) == s);
    assert(trim_dashes_end(s) == s);
}

/// A sync answers a client with exactly the operations it has not seen:
/// each one it is sent is in the log and newer than the client's counter
/// for its author, and each such operation of the log is sent.
pub proof fn law_sync_sends_exactly_unseen(log: Seq<OperationV>, clock: Map<u128, u64>)
    ensures
        forall|j: int| 0 <= j < ops_since(log, clock).len() ==> {
            let o = #[trigger] ops_since(log, clock)[j];
            log.contains(o) && o.clock > clock_get(clock, o.user_id)
        },
        forall|j: int| 0 <= j < log.len() && (#[trigger] log[j]).clock > clock_get(clock, log[j].user_id)
            ==> ops_since(log, clock).contains(log[j]),
    decreases log.len(),
{
    if log.len() > 0 {
        let p = log.drop_last();
        law_sync_sends_exactly_unseen(p, clock);
        let r = ops_since(log, clock);
        let rp = ops_since(p, clock);
        assert forall|j: int| 0 <= j < r.len() implies {
            let o = #[trigger] r[j];
            log.contains(o) && o.clock > clock_get(clock, o.user_id)
        } by {
            if j < rp.len() {
                assert(r[j] == rp[j]);
                let o = rp[j];
                let w = choose|w: int| 0 <= w < p.len() && p[w] == o;
                assert(log[w] == o);
            } else {
                assert(log[log.len() - 1] == r[j]);
            }
        }
        assert forall|j: int| 0 <= j < log.len() && (#[trigger] log[j]).clock > clock_get(clock, log[j].user_id)
            implies r.contains(log[j]) by {
            if j < log.len() - 1 {
                assert(p[j] == log[j]);
                let w = choose|w: int| 0 <= w < rp.len() && rp[w] == p[j];
                assert(r[w] == rp[w]);
            } else {
                assert(r[r.len() - 1] == log[j]);
            }
        }
    }
}

/// The clock sent with a sync counts, for each author, its operations
/// among those sent.
pub proof fn law_clock_counts_operations(ops: Seq<OperationV>, u: u128)
    requires
        ops.len() < u64::MAX,
    ensures
        clock_get(clock_of(ops), u) == ops.filter(|o: OperationV| o.user_id == u).len(),
    decreases ops.len(),
{
    reveal(Seq::filter);
    if ops.len() > 0 {
        law_clock_counts_operations(ops.drop_last(), u);
        lemma_filter_len_bound(ops.drop_last(), u);
    }
}

proof fn lemma_filter_len_bound(ops: Seq<OperationV>, u: u128)
    ensures
        ops.filter(|o: OperationV| o.user_id == u).len() <= ops.len(),
    decreases ops.len(),
{
    reveal(Seq::filter);
    if ops.len() > 0 {
        lemma_filter_len_bound(ops.drop_last(), u);
    }
}

/// Adding a card and removing it again, as the selected card, gives the
/// storyboard its cards back.
pub proof fn law_add_then_remove_restores_cards(
    before: Seq<StoryboardCard>,
    added: StoryboardCard,
    after_add: Seq<StoryboardCard>,
    after_remove: Seq<StoryboardCard>,
)
    requires
        after_add == before.push(added),
        after_remove == after_add.remove(before.len() as int),
    ensures
        after_remove == before,
{
    assert(after_remove =~= before);
}

/// Moving a card one way and back gives the storyboard its order back.
pub proof fn law_move_back_restores_order(cards: Seq<StoryboardCard>, i: int, t: int)
    requires
        0 <= i < cards.len(),
        0 <= t < cards.len(),
    ensures
        ({
            let moved = cards.update(i, cards[t]).update(t, cards[i]);
            moved.update(t, moved[i]).update(i, moved[t]) == cards
        }),
{
    let moved = cards.update(i, cards[t]).update(t, cards[i]);
    assert(moved.update(t, moved[i]).update(i, moved[t]) =~= cards);
}

/// The chat keeps its newest messages, up to its limit, and an opening
/// system message stays first.
pub proof fn law_chat_history_bounded(m: Seq<(ChatRole, Seq<char>)>)
    ensures
        trimmed_history(m).len() == if m.len() <= CHAT_HISTORY_LIMIT {
            m.len()
        } else {
            CHAT_HISTORY_LIMIT as nat
        },
        m.len() > 0 && m[0].0 == ChatRole::System ==> trimmed_history(m)[0] == m[0],
        forall|j: int| 0 <= j < trimmed_history(m).len() && (j < trimmed_history(m).len() - 1 || m.len() == 0 || m[0].0 != ChatRole::System || m.len() <= CHAT_HISTORY_LIMIT)
            ==> #[trigger] trimmed_history(m)[trimmed_history(m).len() - 1 - j] == m[m.len() - 1 - j],
{
}


/// The span a planned clip takes.
pub open spec fn clip_span(c: PlannedClip) -> FrameSpan {
    FrameSpan { start: c.start, duration: c.duration }
}

/// What a placement keeps as it goes: the given spans stay at the front of
/// their tracks, and every placed clip's span is on its track.
proof fn lemma_plan_keeps(tracks: Seq<Seq<FrameSpan>>, start: i64, entries: Seq<(i64, i64)>)
    requires
        tracks.len() + entries.len() <= usize::MAX,
    ensures
        ({
            let st = plan_spec(tracks, start, entries);
            &&& st.clips.len() == entries.len()
            &&& tracks.len() <= st.occ.len() <= tracks.len() + entries.len()
            &&& forall|t: int| 0 <= t < tracks.len() ==> (#[trigger] st.occ[t]).len() >= tracks[t].len()
            &&& forall|t: int, k: int| 0 <= t < tracks.len() && 0 <= k < tracks[t].len() ==> #[trigger] st.occ[t][k] == tracks[t][k]
            &&& forall|i: int| 0 <= i < st.clips.len() ==> (#[trigger] st.clips[i]).track < st.occ.len()
                && st.occ[st.clips[i].track as int].contains(clip_span(st.clips[i]))
            &&& forall|i: int, j: int| 0 <= i < j < st.clips.len() && (#[trigger] st.clips[i]).track == (#[trigger] st.clips[j]).track
                ==> !overlaps(st.clips[j].start as int, st.clips[j].duration as int, clip_span(st.clips[i]))
            &&& forall|i: int, k: int| 0 <= i < st.clips.len() && (#[trigger] st.clips[i]).track < tracks.len() && 0 <= k < tracks[st.clips[i].track as int].len()
                ==> !overlaps(st.clips[i].start as int, st.clips[i].duration as int, #[trigger] tracks[st.clips[i].track as int][k])
        }),
    decreases entries.len(),
{
    if entries.len() > 0 {
        let prev = entries.drop_last();
        lemma_plan_keeps(tracks, start, prev);
        let st = plan_spec(tracks, start, prev);
        let e = entries.last();
        let d = if e.0 < 1 {
            1i64
        } else {
            e.0
        };
        let span = FrameSpan { start: st.cursor, duration: d };
        let nst = plan_spec(tracks, start, entries);
        assert(nst.clips.drop_last() =~= st.clips);
        lemma_first_free_found(st.occ, st.cursor as int, d as int);
        match first_free(st.occ, st.cursor as int, d as int) {
            Some(t) => {
                assert(nst.occ == st.occ.update(t, st.occ[t].push(span)));
                let c = nst.clips.last();
                assert(c.track as int == t);
                assert forall|i: int| 0 <= i < nst.clips.len() implies (#[trigger] nst.clips[i]).track < nst.occ.len()
                    && nst.occ[nst.clips[i].track as int].contains(clip_span(nst.clips[i])) by {
                    if i < st.clips.len() {
                        assert(nst.clips[i] == st.clips[i]);
                        let tt = st.clips[i].track as int;
                        let w = choose|w: int| 0 <= w < st.occ[tt].len() && st.occ[tt][w] == clip_span(st.clips[i]);
                        if tt == t {
                            assert(nst.occ[tt][w] == st.occ[tt][w]);
                        }
                    } else {
                        assert(nst.occ[t][nst.occ[t].len() - 1] == span);
                    }
                }
                assert forall|i: int, j: int| 0 <= i < j < nst.clips.len() && (#[trigger] nst.clips[i]).track == (#[trigger] nst.clips[j]).track
                    implies !overlaps(nst.clips[j].start as int, nst.clips[j].duration as int, clip_span(nst.clips[i])) by {
                    if j < st.clips.len() {
                        assert(nst.clips[i] == st.clips[i]);
                        assert(nst.clips[j] == st.clips[j]);
                    } else {
                        assert(nst.clips[i] == st.clips[i]);
                        let w = choose|w: int| 0 <= w < st.occ[t].len() && st.occ[t][w] == clip_span(st.clips[i]);
                        assert(!overlaps(st.cursor as int, d as int, st.occ[t][w]));
                    }
                }
                assert forall|i: int, k: int| 0 <= i < nst.clips.len() && (#[trigger] nst.clips[i]).track < tracks.len() && 0 <= k < tracks[nst.clips[i].track as int].len()
                    implies !overlaps(nst.clips[i].start as int, nst.clips[i].duration as int, #[trigger] tracks[nst.clips[i].track as int][k]) by {
                    if i < st.clips.len() {
                        assert(nst.clips[i] == st.clips[i]);
                    } else {
                        assert(st.occ[t][k] == tracks[t][k]);
                        assert(!overlaps(st.cursor as int, d as int, st.occ[t][k]));
                    }
                }
                assert forall|tt: int, k: int| 0 <= tt < tracks.len() && 0 <= k < tracks[tt].len() implies #[trigger] nst.occ[tt][k] == tracks[tt][k] by {
                    assert(st.occ[tt][k] == tracks[tt][k]);
                }
            },
            None => {
                assert(nst.occ == st.occ.push(seq![span]));
                assert forall|i: int| 0 <= i < nst.clips.len() implies (#[trigger] nst.clips[i]).track < nst.occ.len()
                    && nst.occ[nst.clips[i].track as int].contains(clip_span(nst.clips[i])) by {
                    if i < st.clips.len() {
                        assert(nst.clips[i] == st.clips[i]);
                        let tt = st.clips[i].track as int;
                        assert(nst.occ[tt] == st.occ[tt]);
                    } else {
                        assert(nst.occ[st.occ.len() as int][0] == span);
                    }
                }
                assert forall|i: int, j: int| 0 <= i < j < nst.clips.len() && (#[trigger] nst.clips[i]).track == (#[trigger] nst.clips[j]).track
                    implies !overlaps(nst.clips[j].start as int, nst.clips[j].duration as int, clip_span(nst.clips[i])) by {
                    if j < st.clips.len() {
                        assert(nst.clips[i] == st.clips[i]);
                        assert(nst.clips[j] == st.clips[j]);
                    } else {
                        assert(nst.clips[i] == st.clips[i]);
                    }
                }
                assert forall|i: int, k: int| 0 <= i < nst.clips.len() && (#[trigger] nst.clips[i]).track < tracks.len() && 0 <= k < tracks[nst.clips[i].track as int].len()
                    implies !overlaps(nst.clips[i].start as int, nst.clips[i].duration as int, #[trigger] tracks[nst.clips[i].track as int][k]) by {
                    if i < st.clips.len() {
                        assert(nst.clips[i] == st.clips[i]);
                    }
                }
                assert forall|tt: int, k: int| 0 <= tt < tracks.len() && 0 <= k < tracks[tt].len() implies #[trigger] nst.occ[tt][k] == tracks[tt][k] by {
                    assert(nst.occ[tt] == st.occ[tt]);
                }
            },
        }
    }
}

/// The first free track is free and within the tracks.
proof fn lemma_first_free_found(occ: Seq<Seq<FrameSpan>>, s: int, d: int)
    ensures
        first_free(occ, s, d) matches Some(t) ==> 0 <= t < occ.len() && is_free(occ[t], s, d),
    decreases occ.len(),
{
    if occ.len() > 0 {
        lemma_first_free_found(occ.drop_last(), s, d);
        if let Some(t) = first_free(occ.drop_last(), s, d) {
            assert(occ.drop_last()[t] == occ[t]);
        }
    }
}

/// Clips moved from the storyboard onto the timeline never overlap each
/// other on a track, nor the clips that were already on it.
pub proof fn law_transfer_clips_never_overlap(tracks: Seq<Seq<FrameSpan>>, start: i64, entries: Seq<(i64, i64)>)
    requires
        tracks.len() + entries.len() <= usize::MAX,
    ensures
        ({
            let clips = plan_spec(tracks, start, entries).clips;
            &&& forall|i: int, j: int| 0 <= i < j < clips.len() && (#[trigger] clips[i]).track == (#[trigger] clips[j]).track
                ==> !overlaps(clips[j].start as int, clips[j].duration as int, clip_span(clips[i]))
            &&& forall|i: int, k: int| 0 <= i < clips.len() && (#[trigger] clips[i]).track < tracks.len() && 0 <= k < tracks[clips[i].track as int].len()
                ==> !overlaps(clips[i].start as int, clips[i].duration as int, #[trigger] tracks[clips[i].track as int][k])
        }),
{
    lemma_plan_keeps(tracks, start, entries);
}


/// A queue report from the server is taken as the whole truth: afterwards
/// exactly the reported jobs are queued or running, those it runs are
/// running with at least 1% progress, and no job is lost.
pub proof fn law_queue_report_is_authoritative(
    before: Map<Seq<char>, ComfyJobInfo>,
    pending: Seq<String>,
    running: Seq<String>,
    now: u64,
)
    ensures
        ({
            let after = after_queue(before, pending, running, now);
            &&& forall|k: Seq<char>| #[trigger] before.dom().contains(k) ==> after.dom().contains(k)
            &&& forall|k: Seq<char>| #[trigger] after.dom().contains(k) ==> ((after[k].status == ComfyJobStatus::Queued
                || after[k].status == ComfyJobStatus::Running) <==> (listed(pending, k) || listed(running, k)))
            &&& forall|k: Seq<char>| listed(running, k) ==> #[trigger] after[k].status == ComfyJobStatus::Running
                && !below_one_percent(after[k].progress_bits)
        }),
{
    let after = after_queue(before, pending, running, now);
    assert forall|k: Seq<char>| listed(running, k) implies #[trigger] after[k].status == ComfyJobStatus::Running
        && !below_one_percent(after[k].progress_bits) by {
        assert(after.dom().contains(k));
        assert(!below_one_percent(crate::comfy_jobs::ONE_PERCENT_BITS));
    }
}


/// What `trim_end` leaves is a prefix.
proof fn lemma_trim_end_keeps_prefix(s: Seq<char>)
    ensures
        trim_end(s).len() <= s.len(),
        trim_end(s) == s.subrange(0, trim_end(s).len() as int),
        trim_end(s).len() > 0 ==> !is_ws(trim_end(s).last()),
    decreases s.len(),
{
    if s.len() > 0 && is_ws(s.last()) {
        lemma_trim_end_keeps_prefix(s.drop_last());
        assert(s.drop_last().subrange(0, trim_end(s).len() as int) =~= s.subrange(0, trim_end(s).len() as int));
    } else {
        assert(s.subrange(0, s.len() as int) =~= s);
    }
}

/// What `trim_start` leaves does not start with whitespace.
proof fn lemma_trim_start_first(s: Seq<char>)
    ensures
        trim_start(s).len() > 0 ==> !is_ws(trim_start(s)[0]),
    decreases s.len(),
{
    if s.len() > 0 && is_ws(s[0]) {
        lemma_trim_start_first(s.drop_first());
    }
}

/// Trimmed text neither starts nor ends with whitespace.
proof fn lemma_trim_ends(s: Seq<char>)
    ensures
        trim(s).len() > 0 ==> !is_ws(trim(s)[0]) && !is_ws(trim(s).last()),
{
    lemma_trim_start_first(s);
    lemma_trim_end_keeps_prefix(trim_start(s));
    if trim(s).len() > 0 {
        assert(trim(s)[0] == trim_start(s)[0]);
    }
}

/// Text that neither starts nor ends with whitespace is its own trim.
proof fn lemma_trim_fixed(s: Seq<char>)
    requires
        s.len() > 0,
        !is_ws(s[0]),
        !is_ws(s.last()),
    ensures
        trim(s) == s,
{
}

/// Tagging a node's inputs twice is tagging them once.
proof fn lemma_tagged_inputs_idempotent(e: Seq<(Seq<char>, Json)>, short: Seq<char>)
    requires
        trim(short) == short,
    ensures
        tagged_inputs(tagged_inputs(e, short), short) == tagged_inputs(e, short),
{
    let fp = "filename_prefix"@;
    let cur = match get(e, fp) {
        Some(Json::Str(s)) => trim(s),
        _ => Seq::<char>::empty(),
    };
    let t = tagged_inputs(e, short);
    if cur.len() == 0 {
        lemma_get_insert_same(e, fp, Json::Str(short));
        if short.len() == 0 {
            lemma_insert_present(t, fp, Json::Str(short));
        } else {
            assert(short.subrange(0, short.len() as int) =~= short);
            assert(occurs_at(short, short, 0));
        }
    } else if !contains(cur, short) {
        let v = cur + "-"@ + short;
        lemma_get_insert_same(e, fp, Json::Str(v));
        assert(short.len() > 0) by {
            if short.len() == 0 {
                assert(cur.subrange(0, 0) =~= short);
                assert(occurs_at(cur, short, 0));
            }
        }
        let raw = match get(e, fp) {
            Some(Json::Str(s)) => s,
            _ => Seq::<char>::empty(),
        };
        lemma_trim_ends(raw);
        lemma_trim_ends(short);
        assert(v[0] == cur[0]);
        assert(v.last() == short.last());
        lemma_trim_fixed(v);
        let at = v.len() - short.len();
        assert(v.subrange(at, at + short.len()) =~= short);
        assert(occurs_at(v, short, at));
    }
}

/// Tagging a prompt node twice is tagging it once.
proof fn lemma_tagged_node_idempotent(node: Json, short: Seq<char>)
    requires
        trim(short) == short,
    ensures
        tagged_node(tagged_node(node, short), short) == tagged_node(node, short),
{
    let ik = "inputs"@;
    if let Json::Obj(e) = node {
        let e2 = if crate::json::has_key(e, ik) {
            e
        } else {
            insert(e, ik, Json::Obj(Seq::empty()))
        };
        if !crate::json::has_key(e, ik) {
            lemma_get_insert_same(e, ik, Json::Obj(Seq::empty()));
        }
        match get(e2, ik) {
            Some(Json::Obj(ie)) => {
                let e3 = insert(e2, ik, Json::Obj(tagged_inputs(ie, short)));
                lemma_get_insert_same(e2, ik, Json::Obj(tagged_inputs(ie, short)));
                lemma_tagged_inputs_idempotent(ie, short);
                lemma_insert_present(e3, ik, Json::Obj(tagged_inputs(ie, short)));
            },
            _ => {},
        }
    }
}

/// Tagging a prompt twice is tagging it once.
proof fn lemma_tagged_prompt_idempotent(p: Seq<(Seq<char>, Json)>, short: Seq<char>)
    requires
        trim(short) == short,
    ensures
        tagged_prompt(tagged_prompt(p, short), short) == tagged_prompt(p, short),
        tagged_prompt(p, short).len() == p.len(),
    decreases p.len(),
{
    if p.len() > 0 {
        lemma_tagged_prompt_idempotent(p.drop_last(), short);
        lemma_tagged_node_idempotent(p.last().1, short);
        let x = tagged_prompt(p, short);
        assert(x.drop_last() =~= tagged_prompt(p.drop_last(), short));
    }
}

/// Sending a body through the job's tagging twice gives what once gives:
/// a prefix is tagged only when it lacks the job's short id, and a client id
/// is set only when the body has none. (A short id with whitespace around
/// it would be tagged again, trimmed.)
pub proof fn law_cloud_tagging_idempotent(body: Json, client_id: Seq<char>)
    requires
        trim(short_id(client_id)) == short_id(client_id),
    ensures
        finished_body(finished_body(body, client_id), client_id) == finished_body(body, client_id),
{
    let s = short_id(client_id);
    let pk = "prompt"@;
    let ck = "client_id"@;
    reveal_strlit("prompt");
    reveal_strlit("client_id");
    assert(pk != ck) by {
        assert(pk.len() != ck.len());
    }
    let t = tagged_body(body, s);
    let f = with_client_id(t, client_id);
    if let Json::Obj(e) = body {
        let et = match get(e, pk) {
            Some(Json::Obj(p)) => insert(e, pk, Json::Obj(tagged_prompt(p, s))),
            _ => e,
        };
        assert(t == Json::Obj(et));
        match get(e, pk) {
            Some(Json::Obj(p)) => {
                lemma_get_insert_same(e, pk, Json::Obj(tagged_prompt(p, s)));
                lemma_get_insert_other(e, pk, Json::Obj(tagged_prompt(p, s)), ck);
                lemma_tagged_prompt_idempotent(p, s);
            },
            _ => {},
        }
        let has_id = match get(et, ck) {
            Some(Json::Str(x)) => trim(x).len() > 0,
            _ => false,
        };
        let ef = if has_id {
            et
        } else {
            insert(et, ck, Json::Str(client_id))
        };
        assert(f == Json::Obj(ef));
        if !has_id {
            lemma_get_insert_same(et, ck, Json::Str(client_id));
            lemma_get_insert_other(et, ck, Json::Str(client_id), pk);
        }
        assert(get(ef, pk) == get(et, pk));
        match get(e, pk) {
            Some(Json::Obj(p)) => {
                lemma_insert_present(ef, pk, Json::Obj(tagged_prompt(p, s)));
                assert(tagged_body(f, s) == f);
            },
            _ => {
                assert(tagged_body(f, s) == f);
            },
        }
        if !has_id && trim(client_id).len() == 0 {
            lemma_insert_present(ef, ck, Json::Str(client_id));
        }
    }
}


/// A workflow of the list is found by its id.
proof fn lemma_workflow_found(ws: Seq<StoryboardWorkflowPreset>, i: int)
    requires
        0 <= i < ws.len(),
    ensures
        last_workflow(ws, ws[i].id) is Some,
    decreases ws.len(),
{
    if ws.last().id != ws[i].id {
        assert(ws.drop_last()[i] == ws[i]);
        lemma_workflow_found(ws.drop_last(), i);
    }
}

/// Once a card's workflow is settled, it uses a workflow the storyboard
/// has; on a storyboard without workflows it uses none and has no inputs.
pub proof fn law_settled_card_uses_known_workflow(after: StoryboardCard, before: StoryboardCard, ws: Seq<StoryboardWorkflowPreset>)
    requires
        is_settled(after, before, ws),
    ensures
        ws.len() > 0 ==> lookup_workflow(ws, after.workflow_id) is Some,
        ws.len() == 0 ==> after.workflow_id is None && after.workflow_inputs@ == Map::<Seq<char>, InputValue>::empty(),
{
    if ws.len() > 0 {
        lemma_workflow_found(ws, 0);
    }
}

/// Showing a workflow input a second time changes nothing more: the value
/// the editor prepares for it is one it keeps.
pub proof fn law_prepared_input_is_stable(s: StoryboardWorkflowInputSpec, inputs: Map<Seq<char>, InputValue>)
    ensures
        prepared_value(s, inputs.insert(s@.map_key, prepared_value(s, inputs))) == prepared_value(s, inputs),
{
    let v = prepared_value(s, inputs);
    let again = inputs.insert(s@.map_key, v);
    assert(again.dom().contains(s@.map_key) && again[s@.map_key] == v);
    if !is_runway_text(s@) && s@.kind != StoryboardWorkflowInputKind::Null {
        let k = s@.kind;
        assert(matches_kind_spec(default_for_kind_spec(k), k)) by {
            match k {
                StoryboardWorkflowInputKind::Text { .. } => {},
                _ => {},
            }
        }
    }
}

/// The screenplay log never grows past its limit.
pub proof fn law_screenplay_log_bounded(log: Seq<Seq<char>>, entry: Seq<char>)
    requires
        log.len() <= SCREENPLAY_LOG_LIMIT,
    ensures
        pushed_log(log, entry).len() <= SCREENPLAY_LOG_LIMIT,
        trim(entry).len() > 0 ==> pushed_log(log, entry).last() == entry,
{
}

/// The log of the cloud monitor never holds more than its limit of lines;
/// a line added is its last, and what it keeps is the newest part of the
/// log with the line.
pub proof fn law_monitor_log_bounded(log: Seq<Seq<char>>, line: Seq<char>)
    ensures
        monitor_log(log, line).len() <= MONITOR_LOG_LIMIT,
        monitor_log(log, line).last() == line,
        (log.push(line)).subrange(
            log.len() + 1 - monitor_log(log, line).len(),
            (log.len() + 1) as int,
        ) == monitor_log(log, line),
{
    let p = log.push(line);
    if p.len() <= MONITOR_LOG_LIMIT {
        assert(p.subrange(0, p.len() as int) =~= p);
    }
}

/// A progress step never takes a job's progress back: each count is at
/// least what it was, and the import marks stay.
pub proof fn law_monitor_progress_never_goes_back(a: PhaseAgg, sampling: bool, current: u32, total: u32)
    ensures
        advanced(a, sampling, current, total).s_cur >= a.s_cur,
        advanced(a, sampling, current, total).s_tot >= a.s_tot,
        advanced(a, sampling, current, total).e_cur >= a.e_cur,
        advanced(a, sampling, current, total).e_tot >= a.e_tot,
        advanced(a, sampling, current, total).importing == a.importing,
        advanced(a, sampling, current, total).imported == a.imported,
{
}

/// What `section_of` finds: a section of the node, and the first one.
proof fn lemma_section_of(g: Seq<(Seq<char>, Seq<char>, Seq<int>)>, node: Seq<char>)
    ensures
        match section_of(g, node) {
            Some(p) => 0 <= p < g.len() && g[p].0 == node,
            None => forall|q: int| 0 <= q < g.len() ==> (#[trigger] g[q]).0 != node,
        },
    decreases g.len(),
{
    if g.len() > 0 {
        lemma_section_of(g.drop_last(), node);
        assert forall|q: int| 0 <= q < g.len() - 1 implies #[trigger] g[q] == g.drop_last()[q] by {}
    }
}

/// Each section of the form is one node's: the sections have distinct
/// nodes, every member of a section is an input of that node that is shown
/// in the form and not inline, and every such input is a member of its
/// node's section; the inline list holds exactly the shown inline inputs.
pub proof fn law_form_sections_are_per_node(specs: Seq<InputSpecView>, n: int, keys: Set<Seq<char>>)
    requires
        0 <= n <= specs.len(),
    ensures
        ({
            let (inl, groups) = form_layout(specs, n, keys);
            &&& forall|x: int| 0 <= x < inl.len() ==> 0 <= #[trigger] inl[x] < n
            &&& forall|i: int| 0 <= i < n ==> (inl.contains(i) <==> (!skipped_input(#[trigger] specs[i], keys) && inline_input(specs[i])))
            &&& forall|a: int, b: int| 0 <= a < b < groups.len() ==> (#[trigger] groups[a]).0 != (#[trigger] groups[b]).0
            &&& forall|g: int, m: int| 0 <= g < groups.len() && 0 <= m < groups[g].2.len() ==> {
                let i = #[trigger] groups[g].2[m];
                &&& 0 <= i < n
                &&& !skipped_input(specs[i], keys)
                &&& !inline_input(specs[i])
                &&& specs[i].node_id == groups[g].0
            }
            &&& forall|i: int| 0 <= i < n && !skipped_input(#[trigger] specs[i], keys) && !inline_input(specs[i]) ==> exists|g: int|
                0 <= g < groups.len() && groups[g].0 == specs[i].node_id && #[trigger] groups[g].2.contains(i)
        }),
    decreases n,
{
    if n > 0 {
        law_form_sections_are_per_node(specs, n - 1, keys);
        let prev = form_layout(specs, n - 1, keys);
        let s = specs[n - 1];
        let cur = form_layout(specs, n, keys);
        let (pi, pg) = prev;
        let (ci, cg) = cur;
        if skipped_input(s, keys) {
            assert(cur == prev);
            assert forall|i: int| 0 <= i < n implies (ci.contains(i) <==> (!skipped_input(#[trigger] specs[i], keys) && inline_input(specs[i]))) by {
                if i == n - 1 && ci.contains(i) {
                    let x = choose|x: int| 0 <= x < pi.len() && pi[x] == i;
                    assert(pi[x] < n - 1);
                }
            }
        } else if inline_input(s) {
            assert(ci == pi.push(n - 1));
            assert(cg == pg);
            assert forall|x: int| 0 <= x < ci.len() implies 0 <= #[trigger] ci[x] < n by {
                if x < pi.len() {
                    assert(ci[x] == pi[x]);
                }
            }
            assert forall|i: int| 0 <= i < n implies (ci.contains(i) <==> (!skipped_input(#[trigger] specs[i], keys) && inline_input(specs[i]))) by {
                if i == n - 1 {
                    assert(ci[pi.len() as int] == i);
                } else if ci.contains(i) {
                    let x = choose|x: int| 0 <= x < ci.len() && ci[x] == i;
                    if x < pi.len() {
                        assert(pi[x] == i);
                    }
                } else if pi.contains(i) {
                    let x = choose|x: int| 0 <= x < pi.len() && pi[x] == i;
                    assert(ci[x] == i);
                }
            }
        } else {
            assert(ci == pi);
            lemma_section_of(pg, s.node_id);
            assert forall|i: int| 0 <= i < n implies (ci.contains(i) <==> (!skipped_input(#[trigger] specs[i], keys) && inline_input(specs[i]))) by {
                if i == n - 1 && ci.contains(i) {
                    let x = choose|x: int| 0 <= x < pi.len() && pi[x] == i;
                    assert(pi[x] < n - 1);
                }
            }
            match section_of(pg, s.node_id) {
                Some(p) => {
                    assert(cg == pg.update(p, (pg[p].0, pg[p].1, pg[p].2.push(n - 1))));
                    assert forall|g: int, m: int| 0 <= g < cg.len() && 0 <= m < cg[g].2.len() implies {
                        let i = #[trigger] cg[g].2[m];
                        &&& 0 <= i < n
                        &&& !skipped_input(specs[i], keys)
                        &&& !inline_input(specs[i])
                        &&& specs[i].node_id == cg[g].0
                    } by {
                        if g != p {
                            assert(cg[g] == pg[g]);
                            let i = pg[g].2[m];
                        } else if m < pg[p].2.len() {
                            assert(cg[g].2[m] == pg[p].2[m]);
                            let i = pg[p].2[m];
                        }
                    }
                    assert forall|i: int| 0 <= i < n && !skipped_input(#[trigger] specs[i], keys) && !inline_input(specs[i]) implies exists|g: int|
                        0 <= g < cg.len() && cg[g].0 == specs[i].node_id && #[trigger] cg[g].2.contains(i) by {
                        if i == n - 1 {
                            assert(cg[p].2[pg[p].2.len() as int] == i);
                            assert(cg[p].2.contains(i));
                        } else {
                            let g = choose|g: int| 0 <= g < pg.len() && pg[g].0 == specs[i].node_id && #[trigger] pg[g].2.contains(i);
                            let x = choose|x: int| 0 <= x < pg[g].2.len() && pg[g].2[x] == i;
                            if g == p {
                                assert(cg[g].2[x] == i);
                            } else {
                                assert(cg[g] == pg[g]);
                            }
                            assert(cg[g].2.contains(i));
                        }
                    }
                    assert forall|a: int, b: int| 0 <= a < b < cg.len() implies (#[trigger] cg[a]).0 != (#[trigger] cg[b]).0 by {
                        assert(cg[a].0 == pg[a].0);
                        assert(cg[b].0 == pg[b].0);
                    }
                },
                None => {
                    assert(cg == pg.push((s.node_id, s.group_label, seq![n - 1])));
                    assert forall|g: int, m: int| 0 <= g < cg.len() && 0 <= m < cg[g].2.len() implies {
                        let i = #[trigger] cg[g].2[m];
                        &&& 0 <= i < n
                        &&& !skipped_input(specs[i], keys)
                        &&& !inline_input(specs[i])
                        &&& specs[i].node_id == cg[g].0
                    } by {
                        if g < pg.len() {
                            assert(cg[g] == pg[g]);
                            let i = pg[g].2[m];
                        }
                    }
                    assert forall|i: int| 0 <= i < n && !skipped_input(#[trigger] specs[i], keys) && !inline_input(specs[i]) implies exists|g: int|
                        0 <= g < cg.len() && cg[g].0 == specs[i].node_id && #[trigger] cg[g].2.contains(i) by {
                        if i == n - 1 {
                            assert(cg[pg.len() as int].2[0] == i);
                            assert(cg[pg.len() as int].2.contains(i));
                        } else {
                            let g = choose|g: int| 0 <= g < pg.len() && pg[g].0 == specs[i].node_id && #[trigger] pg[g].2.contains(i);
                            assert(cg[g] == pg[g]);
                            assert(cg[g].2.contains(i));
                        }
                    }
                    assert forall|a: int, b: int| 0 <= a < b < cg.len() implies (#[trigger] cg[a]).0 != (#[trigger] cg[b]).0 by {
                        if b == pg.len() {
                            assert(cg[a] == pg[a]);
                        } else {
                            assert(cg[a] == pg[a]);
                            assert(cg[b] == pg[b]);
                        }
                    }
                },
            }
        }
    }
}


/// Every spec of one node's inputs carries the node's class.
proof fn lemma_inputs_specs_class(
    node_id: Seq<char>,
    class_type: Seq<char>,
    title: Option<Seq<char>>,
    gemini: bool,
    inputs: Seq<(Seq<char>, Json)>,
)
    ensures
        forall|k: int| 0 <= k < inputs_specs(node_id, class_type, title, gemini, inputs).len()
            ==> (#[trigger] inputs_specs(node_id, class_type, title, gemini, inputs)[k]).node_class == class_type,
    decreases inputs.len(),
{
    if inputs.len() > 0 {
        lemma_inputs_specs_class(node_id, class_type, title, gemini, inputs.drop_last());
    }
}

/// Nodes that save or preview results give the storyboard no inputs: no
/// spec that `collect_input_specs` returns belongs to a node whose class,
/// trimmed and in lower case, is `savevideo`, `savevideoadvanced`,
/// `saveimage`, `saveimages`, `savegif`, `saveaudio`, `previewimage` or
/// `previewvideo`.
pub proof fn law_output_nodes_give_no_inputs(prompt: Seq<(Seq<char>, Json)>)
    ensures
        forall|i: int| 0 <= i < collect_specs(prompt).len() ==> {
            let l = lower(trim(#[trigger] collect_specs(prompt)[i].node_class));
            &&& l != "savevideo"@
            &&& l != "savevideoadvanced"@
            &&& l != "saveimage"@
            &&& l != "saveimages"@
            &&& l != "savegif"@
            &&& l != "saveaudio"@
            &&& l != "previewimage"@
            &&& l != "previewvideo"@
        },
    decreases prompt.len(),
{
    if prompt.len() > 0 {
        let prev = prompt.drop_last();
        law_output_nodes_give_no_inputs(prev);
        let id = prompt.last().0;
        let node = prompt.last().1;
        let ns = node_specs(id, node);
        let all = collect_specs(prompt);
        assert(all == collect_specs(prev) + ns);
        if let Json::Obj(e) = node {
            let c = class_of(e);
            let t = node_title_spec(e);
            if !is_output_spec(c) {
                if let Some(Json::Obj(inputs)) = get(e, "inputs"@) {
                    lemma_inputs_specs_class(id, c, t, is_gemini_spec(c, t), inputs);
                }
            }
            assert forall|k: int| 0 <= k < ns.len() implies (#[trigger] ns[k]).node_class == c && !is_output_spec(c) by {}
        }
        assert forall|i: int| 0 <= i < all.len() implies {
            let l = lower(trim(#[trigger] all[i].node_class));
            &&& l != "savevideo"@
            &&& l != "savevideoadvanced"@
            &&& l != "saveimage"@
            &&& l != "saveimages"@
            &&& l != "savegif"@
            &&& l != "saveaudio"@
            &&& l != "previewimage"@
            &&& l != "previewvideo"@
        } by {
            if i >= collect_specs(prev).len() {
                let k = i - collect_specs(prev).len();
                assert(all[i] == ns[k]);
            } else {
                assert(all[i] == collect_specs(prev)[i]);
            }
        }
    }
}


/// Lower-casing leaves a lower-case ASCII word as it is.
proof fn lemma_lower_lits()
    ensures
        lower("png"@) == "png"@,
        lower("jpg"@) == "jpg"@,
        lower("jpeg"@) == "jpeg"@,
        lower("gif"@) == "gif"@,
        lower("webp"@) == "webp"@,
        lower("bmp"@) == "bmp"@,
        lower("tif"@) == "tif"@,
        lower("tiff"@) == "tiff"@,
        lower("exr"@) == "exr"@,
{
    reveal_strlit("png");
    reveal_strlit("jpg");
    reveal_strlit("jpeg");
    reveal_strlit("gif");
    reveal_strlit("webp");
    reveal_strlit("bmp");
    reveal_strlit("tif");
    reveal_strlit("tiff");
    reveal_strlit("exr");
    assert(lower("png"@) =~= "png"@);
    assert(lower("jpg"@) =~= "jpg"@);
    assert(lower("jpeg"@) =~= "jpeg"@);
    assert(lower("gif"@) =~= "gif"@);
    assert(lower("webp"@) =~= "webp"@);
    assert(lower("bmp"@) =~= "bmp"@);
    assert(lower("tif"@) =~= "tif"@);
    assert(lower("tiff"@) =~= "tiff"@);
    assert(lower("exr"@) =~= "exr"@);
}

/// A clip on a track that is not an audio track plays as a still image,
/// showing the clip's source, exactly when its extension is, ignoring ASCII
/// case, `png`, `jpg`, `jpeg`, `gif`, `webp`, `bmp`, `tif`, `tiff` or
/// `exr`; any other extension, or none, makes it a video of that source.
/// On an audio track every clip is audio of its source.
pub proof fn law_stills_play_as_images(node: TimelineNode, track_kind: TrackKind, fps: Fps, ext: Option<Seq<char>>)
    requires
        node.kind is Clip,
    ensures
        ({
            let src = match clip_path(node) {
                Some(p) => p,
                None => Seq::empty(),
            };
            track_kind == TrackKind::Audio ==> (item_spec(node, track_kind, fps, ext) matches Some(it) && it.kind matches ItemKindV::Audio { src: s, .. } && s == src)
        }),
        ({
            let still = match ext {
                Some(e) => {
                    let l = lower(e);
                    ||| l == "png"@
                    ||| l == "jpg"@
                    ||| l == "jpeg"@
                    ||| l == "gif"@
                    ||| l == "webp"@
                    ||| l == "bmp"@
                    ||| l == "tif"@
                    ||| l == "tiff"@
                    ||| l == "exr"@
                },
                None => false,
            };
            let src = match clip_path(node) {
                Some(p) => p,
                None => Seq::empty(),
            };
            track_kind != TrackKind::Audio ==> match item_spec(node, track_kind, fps, ext) {
                Some(it) => {
                    &&& still ==> it.kind == (ItemKindV::Image { src })
                    &&& !still ==> (it.kind matches ItemKindV::Video { src: s, .. } && s == src)
                },
                None => false,
            }
        }),
{
    lemma_lower_lits();
}


/// Setting one input leaves every other input as it was.
proof fn lemma_patch_step_other(m: Seq<(Seq<char>, Json)>, k: Seq<char>, v: Json, o: Option<Seq<char>>, k2: Seq<char>)
    requires
        k2 != k,
    ensures
        get(set_if_present(m, k, v), k2) == get(m, k2),
        has_key(set_if_present(m, k, v), k2) == has_key(m, k2),
        get(set_if_textual(m, k, v), k2) == get(m, k2),
        has_key(set_if_textual(m, k, v), k2) == has_key(m, k2),
        get(set_override(m, k, o), k2) == get(m, k2),
        has_key(set_override(m, k, o), k2) == has_key(m, k2),
{
    lemma_get_insert_other(m, k, v, k2);
    if let Some(t) = o {
        lemma_get_insert_other(m, k, Json::Str(t), k2);
    }
}

/// Setting a present input gives it the value; an absent one stays absent.
proof fn lemma_patch_step_same(m: Seq<(Seq<char>, Json)>, k: Seq<char>, v: Json)
    ensures
        has_key(m, k) ==> get(set_if_present(m, k, v), k) == Some(v),
        !has_key(m, k) ==> !has_key(set_if_present(m, k, v), k),
{
    lemma_get_insert_same(m, k, v);
}

/// What the card's settings do to one node's timing and naming inputs.
proof fn lemma_patch_inputs_timing(m: Seq<(Seq<char>, Json)>, positive: bool, ctx: PatchCtx)
    ensures
        ({
            let r = patch_inputs(m, positive, ctx);
            &&& has_key(m, "frame_rate"@) ==> get(r, "frame_rate"@) == Some(Json::Number(num_of_i64(ctx.fps)))
            &&& has_key(m, "fps"@) ==> get(r, "fps"@) == Some(Json::Number(num_of_i64(ctx.fps)))
            &&& has_key(m, "length"@) ==> get(r, "length"@) == Some(Json::Number(num_of_i64(ctx.frames)))
            &&& has_key(m, "filename_prefix"@) ==> get(r, "filename_prefix"@) == Some(Json::Str(ctx.prefix))
            &&& has_key(r, "frame_rate"@) == has_key(m, "frame_rate"@)
            &&& has_key(r, "fps"@) == has_key(m, "fps"@)
            &&& has_key(r, "length"@) == has_key(m, "length"@)
        }),
{
    reveal_strlit("filename_prefix");
    reveal_strlit("image");
    reveal_strlit("image_path");
    reveal_strlit("frame_rate");
    reveal_strlit("fps");
    reveal_strlit("length");
    reveal_strlit("format");
    reveal_strlit("codec");
    reveal_strlit("text");
    let names = seq!["filename_prefix"@, "image"@, "image_path"@, "frame_rate"@, "fps"@, "length"@, "format"@, "codec"@, "text"@];
    assert(names[0].len() == 15 && names[1].len() == 5 && names[2].len() == 10 && names[3].len() == 10);
    assert(names[4].len() == 3 && names[5].len() == 6 && names[6].len() == 6 && names[7].len() == 5 && names[8].len() == 4);
    assert(names[2][0] != names[3][0] && names[5][0] != names[6][0] && names[1][0] != names[7][0]);
    assert forall|a: int, b: int| 0 <= a < 9 && 0 <= b < 9 && a != b implies #[trigger] names[a] != #[trigger] names[b] by {
        if names[a].len() == names[b].len() {
            assert(names[a][0] != names[b][0]);
        }
    }
    let fr = Json::Number(num_of_i64(ctx.fps));
    let ln = Json::Number(num_of_i64(ctx.frames));
    let m1 = set_if_present(m, "filename_prefix"@, Json::Str(ctx.prefix));
    let m2 = set_if_textual(m1, "image"@, Json::Str(ctx.image));
    let m3 = set_if_textual(m2, "image_path"@, Json::Str(ctx.image));
    let m4 = set_if_present(m3, "frame_rate"@, fr);
    let m5 = set_if_present(m4, "fps"@, fr);
    let m6 = set_if_present(m5, "length"@, ln);
    let m7 = set_override(m6, "format"@, ctx.format);
    let m8 = set_override(m7, "codec"@, ctx.codec);
    let t = Json::Str(trim(ctx.description));
    // filename_prefix: set first, then untouched.
    lemma_patch_step_same(m, "filename_prefix"@, Json::Str(ctx.prefix));
    lemma_patch_step_other(m1, "image"@, Json::Str(ctx.image), None, "filename_prefix"@);
    lemma_patch_step_other(m2, "image_path"@, Json::Str(ctx.image), None, "filename_prefix"@);
    lemma_patch_step_other(m3, "frame_rate"@, fr, None, "filename_prefix"@);
    lemma_patch_step_other(m4, "fps"@, fr, None, "filename_prefix"@);
    lemma_patch_step_other(m5, "length"@, ln, None, "filename_prefix"@);
    lemma_patch_step_other(m6, "format"@, fr, ctx.format, "filename_prefix"@);
    lemma_patch_step_other(m7, "codec"@, fr, ctx.codec, "filename_prefix"@);
    lemma_patch_step_other(m8, "text"@, t, None, "filename_prefix"@);
    // frame_rate
    lemma_patch_step_other(m, "filename_prefix"@, Json::Str(ctx.prefix), None, "frame_rate"@);
    lemma_patch_step_other(m1, "image"@, Json::Str(ctx.image), None, "frame_rate"@);
    lemma_patch_step_other(m2, "image_path"@, Json::Str(ctx.image), None, "frame_rate"@);
    lemma_patch_step_same(m3, "frame_rate"@, fr);
    lemma_patch_step_other(m4, "fps"@, fr, None, "frame_rate"@);
    lemma_patch_step_other(m5, "length"@, ln, None, "frame_rate"@);
    lemma_patch_step_other(m6, "format"@, fr, ctx.format, "frame_rate"@);
    lemma_patch_step_other(m7, "codec"@, fr, ctx.codec, "frame_rate"@);
    lemma_patch_step_other(m8, "text"@, t, None, "frame_rate"@);
    // fps
    lemma_patch_step_other(m, "filename_prefix"@, Json::Str(ctx.prefix), None, "fps"@);
    lemma_patch_step_other(m1, "image"@, Json::Str(ctx.image), None, "fps"@);
    lemma_patch_step_other(m2, "image_path"@, Json::Str(ctx.image), None, "fps"@);
    lemma_patch_step_other(m3, "frame_rate"@, fr, None, "fps"@);
    lemma_patch_step_same(m4, "fps"@, fr);
    lemma_patch_step_other(m5, "length"@, ln, None, "fps"@);
    lemma_patch_step_other(m6, "format"@, fr, ctx.format, "fps"@);
    lemma_patch_step_other(m7, "codec"@, fr, ctx.codec, "fps"@);
    lemma_patch_step_other(m8, "text"@, t, None, "fps"@);
    // length
    lemma_patch_step_other(m, "filename_prefix"@, Json::Str(ctx.prefix), None, "length"@);
    lemma_patch_step_other(m1, "image"@, Json::Str(ctx.image), None, "length"@);
    lemma_patch_step_other(m2, "image_path"@, Json::Str(ctx.image), None, "length"@);
    lemma_patch_step_other(m3, "frame_rate"@, fr, None, "length"@);
    lemma_patch_step_other(m4, "fps"@, fr, None, "length"@);
    lemma_patch_step_same(m5, "length"@, ln);
    lemma_patch_step_other(m6, "format"@, fr, ctx.format, "length"@);
    lemma_patch_step_other(m7, "codec"@, fr, ctx.codec, "length"@);
    lemma_patch_step_other(m8, "text"@, t, None, "length"@);
}

/// What the card's settings do to one node's image, encoding and prompt
/// text inputs.
proof fn lemma_patch_inputs_media(m: Seq<(Seq<char>, Json)>, positive: bool, ctx: PatchCtx)
    ensures
        ({
            let r = patch_inputs(m, positive, ctx);
            &&& (get(m, "image"@) matches Some(Json::Null) || get(m, "image"@) matches Some(Json::Str(_))) ==> get(r, "image"@) == Some(Json::Str(ctx.image))
            &&& (get(m, "image_path"@) matches Some(Json::Null) || get(m, "image_path"@) matches Some(Json::Str(_))) ==> get(r, "image_path"@) == Some(Json::Str(ctx.image))
            &&& (ctx.format matches Some(f) && has_key(m, "format"@)) ==> get(r, "format"@) == Some(Json::Str(ctx.format->0))
            &&& (ctx.codec matches Some(c) && has_key(m, "codec"@)) ==> get(r, "codec"@) == Some(Json::Str(ctx.codec->0))
            &&& (positive && trim(ctx.description).len() > 0 && has_key(m, "text"@)) ==> get(r, "text"@) == Some(Json::Str(trim(ctx.description)))
            &&& !positive ==> get(r, "text"@) == get(m, "text"@)
        }),
{
    reveal_strlit("filename_prefix");
    reveal_strlit("image");
    reveal_strlit("image_path");
    reveal_strlit("frame_rate");
    reveal_strlit("fps");
    reveal_strlit("length");
    reveal_strlit("format");
    reveal_strlit("codec");
    reveal_strlit("text");
    let names = seq!["filename_prefix"@, "image"@, "image_path"@, "frame_rate"@, "fps"@, "length"@, "format"@, "codec"@, "text"@];
    assert(names[0].len() == 15 && names[1].len() == 5 && names[2].len() == 10 && names[3].len() == 10);
    assert(names[4].len() == 3 && names[5].len() == 6 && names[6].len() == 6 && names[7].len() == 5 && names[8].len() == 4);
    assert(names[2][0] != names[3][0] && names[5][0] != names[6][0] && names[1][0] != names[7][0]);
    assert forall|a: int, b: int| 0 <= a < 9 && 0 <= b < 9 && a != b implies #[trigger] names[a] != #[trigger] names[b] by {
        if names[a].len() == names[b].len() {
            assert(names[a][0] != names[b][0]);
        }
    }
    let fr = Json::Number(num_of_i64(ctx.fps));
    let ln = Json::Number(num_of_i64(ctx.frames));
    let m1 = set_if_present(m, "filename_prefix"@, Json::Str(ctx.prefix));
    let m2 = set_if_textual(m1, "image"@, Json::Str(ctx.image));
    let m3 = set_if_textual(m2, "image_path"@, Json::Str(ctx.image));
    let m4 = set_if_present(m3, "frame_rate"@, fr);
    let m5 = set_if_present(m4, "fps"@, fr);
    let m6 = set_if_present(m5, "length"@, ln);
    let m7 = set_override(m6, "format"@, ctx.format);
    let m8 = set_override(m7, "codec"@, ctx.codec);
    let t = Json::Str(trim(ctx.description));
    // image
    lemma_patch_step_other(m, "filename_prefix"@, Json::Str(ctx.prefix), None, "image"@);
    lemma_get_insert_same(m1, "image"@, Json::Str(ctx.image));
    lemma_patch_step_other(m2, "image_path"@, Json::Str(ctx.image), None, "image"@);
    lemma_patch_step_other(m3, "frame_rate"@, fr, None, "image"@);
    lemma_patch_step_other(m4, "fps"@, fr, None, "image"@);
    lemma_patch_step_other(m5, "length"@, ln, None, "image"@);
    lemma_patch_step_other(m6, "format"@, fr, ctx.format, "image"@);
    lemma_patch_step_other(m7, "codec"@, fr, ctx.codec, "image"@);
    lemma_patch_step_other(m8, "text"@, t, None, "image"@);
    // image_path
    lemma_patch_step_other(m, "filename_prefix"@, Json::Str(ctx.prefix), None, "image_path"@);
    lemma_patch_step_other(m1, "image"@, Json::Str(ctx.image), None, "image_path"@);
    lemma_get_insert_same(m2, "image_path"@, Json::Str(ctx.image));
    lemma_patch_step_other(m3, "frame_rate"@, fr, None, "image_path"@);
    lemma_patch_step_other(m4, "fps"@, fr, None, "image_path"@);
    lemma_patch_step_other(m5, "length"@, ln, None, "image_path"@);
    lemma_patch_step_other(m6, "format"@, fr, ctx.format, "image_path"@);
    lemma_patch_step_other(m7, "codec"@, fr, ctx.codec, "image_path"@);
    lemma_patch_step_other(m8, "text"@, t, None, "image_path"@);
    // format
    lemma_patch_step_other(m, "filename_prefix"@, Json::Str(ctx.prefix), None, "format"@);
    lemma_patch_step_other(m1, "image"@, Json::Str(ctx.image), None, "format"@);
    lemma_patch_step_other(m2, "image_path"@, Json::Str(ctx.image), None, "format"@);
    lemma_patch_step_other(m3, "frame_rate"@, fr, None, "format"@);
    lemma_patch_step_other(m4, "fps"@, fr, None, "format"@);
    lemma_patch_step_other(m5, "length"@, ln, None, "format"@);
    if let Some(x) = ctx.format { lemma_get_insert_same(m6, "format"@, Json::Str(x)); }
    lemma_patch_step_other(m7, "codec"@, fr, ctx.codec, "format"@);
    lemma_patch_step_other(m8, "text"@, t, None, "format"@);
    // codec
    lemma_patch_step_other(m, "filename_prefix"@, Json::Str(ctx.prefix), None, "codec"@);
    lemma_patch_step_other(m1, "image"@, Json::Str(ctx.image), None, "codec"@);
    lemma_patch_step_other(m2, "image_path"@, Json::Str(ctx.image), None, "codec"@);
    lemma_patch_step_other(m3, "frame_rate"@, fr, None, "codec"@);
    lemma_patch_step_other(m4, "fps"@, fr, None, "codec"@);
    lemma_patch_step_other(m5, "length"@, ln, None, "codec"@);
    lemma_patch_step_other(m6, "format"@, fr, ctx.format, "codec"@);
    if let Some(x) = ctx.codec { lemma_get_insert_same(m7, "codec"@, Json::Str(x)); }
    lemma_patch_step_other(m8, "text"@, t, None, "codec"@);
    // text
    lemma_patch_step_other(m, "filename_prefix"@, Json::Str(ctx.prefix), None, "text"@);
    lemma_patch_step_other(m1, "image"@, Json::Str(ctx.image), None, "text"@);
    lemma_patch_step_other(m2, "image_path"@, Json::Str(ctx.image), None, "text"@);
    lemma_patch_step_other(m3, "frame_rate"@, fr, None, "text"@);
    lemma_patch_step_other(m4, "fps"@, fr, None, "text"@);
    lemma_patch_step_other(m5, "length"@, ln, None, "text"@);
    lemma_patch_step_other(m6, "format"@, fr, ctx.format, "text"@);
    lemma_patch_step_other(m7, "codec"@, fr, ctx.codec, "text"@);
    lemma_get_insert_same(m8, "text"@, t);
}

/// After a card patches a prompt (with no input values of its own), every
/// node input named `frame_rate` or `fps` holds the frame rate given, as a
/// JSON integer, `length` holds the frame count given, and
/// `filename_prefix` the prefix given; such inputs are neither added nor
/// removed.
pub proof fn law_patch_sets_timing(
    p: Seq<(Seq<char>, Json)>,
    card: StoryboardCard,
    image: Seq<char>,
    fps: i64,
    frames: i64,
    prefix: Seq<char>,
    resolved: Map<Seq<char>, Seq<char>>,
    nid: Seq<char>,
)
    requires
        get(p, nid) matches Some(Json::Obj(o)) && get(o, "inputs"@) matches Some(Json::Obj(_)),
    ensures
        ({
            let r = patched_prompt_spec(p, card, image, fps, frames, prefix, resolved, Seq::empty());
            let inp = get(get(p, nid)->0->Obj_0, "inputs"@)->0->Obj_0;
            get(r, nid) matches Some(Json::Obj(o2)) && get(o2, "inputs"@) matches Some(Json::Obj(out)) && {
                &&& has_key(inp, "frame_rate"@) ==> get(out, "frame_rate"@) == Some(
                    Json::Number(if fps >= 0 { Num::PosInt(fps as u64) } else { Num::NegInt(fps) }),
                )
                &&& has_key(inp, "fps"@) ==> get(out, "fps"@) == Some(
                    Json::Number(if fps >= 0 { Num::PosInt(fps as u64) } else { Num::NegInt(fps) }),
                )
                &&& has_key(inp, "length"@) ==> get(out, "length"@) == Some(
                    Json::Number(if frames >= 0 { Num::PosInt(frames as u64) } else { Num::NegInt(frames) }),
                )
                &&& has_key(inp, "filename_prefix"@) ==> get(out, "filename_prefix"@) == Some(Json::Str(prefix))
                &&& has_key(out, "frame_rate"@) == has_key(inp, "frame_rate"@)
                &&& has_key(out, "fps"@) == has_key(inp, "fps"@)
                &&& has_key(out, "length"@) == has_key(inp, "length"@)
            }
        }),
{
    let ctx = card_ctx(card, image, fps, frames, prefix);
    let o = get(p, nid)->0->Obj_0;
    let inp = get(o, "inputs"@)->0->Obj_0;
    lemma_patched_node(p, card, image, fps, frames, prefix, resolved, nid);
    lemma_patch_inputs_timing(inp, is_positive_node(o), ctx);
}

/// A patched node keeps its place and gets its inputs patched.
proof fn lemma_patched_node(
    p: Seq<(Seq<char>, Json)>,
    card: StoryboardCard,
    image: Seq<char>,
    fps: i64,
    frames: i64,
    prefix: Seq<char>,
    resolved: Map<Seq<char>, Seq<char>>,
    nid: Seq<char>,
)
    requires
        get(p, nid) matches Some(Json::Obj(o)) && get(o, "inputs"@) matches Some(Json::Obj(_)),
    ensures
        ({
            let o = get(p, nid)->0->Obj_0;
            let inp = get(o, "inputs"@)->0->Obj_0;
            let r = patched_prompt_spec(p, card, image, fps, frames, prefix, resolved, Seq::empty());
            get(r, nid) matches Some(Json::Obj(o2)) && get(o2, "inputs"@) == Some(
                Json::Obj(patch_inputs(inp, is_positive_node(o), card_ctx(card, image, fps, frames, prefix))),
            )
        }),
{
    let ctx = card_ctx(card, image, fps, frames, prefix);
    let q = patch_nodes(p, ctx);
    assert(patched_prompt_spec(p, card, image, fps, frames, prefix, resolved, Seq::empty()) == q);
    lemma_same_keys(p, q, nid);
    let i = key_index(p, nid);
    assert(q[i] == (p[i].0, patch_node(p[i].1, ctx)));
    let o = get(p, nid)->0->Obj_0;
    let inp = get(o, "inputs"@)->0->Obj_0;
    let o2 = insert(o, "inputs"@, Json::Obj(patch_inputs(inp, is_positive_node(o), ctx)));
    assert(get(q, nid) == Some(Json::Obj(o2)));
    lemma_get_insert_same(o, "inputs"@, Json::Obj(patch_inputs(inp, is_positive_node(o), ctx)));
}

/// After a card patches a prompt (with no input values of its own), a node
/// input `image` or `image_path` that was `null` or a string names the
/// image given; a present `format` or `codec` input takes the card's video
/// setting when the card has one that is not blank (trimmed); a node whose
/// title mentions `positive`, in any case, takes the card's description
/// (trimmed, when not blank) as its `text`; any other node keeps its
/// `text`.
pub proof fn law_patch_applies_card_media(
    p: Seq<(Seq<char>, Json)>,
    card: StoryboardCard,
    image: Seq<char>,
    fps: i64,
    frames: i64,
    prefix: Seq<char>,
    resolved: Map<Seq<char>, Seq<char>>,
    nid: Seq<char>,
)
    requires
        get(p, nid) matches Some(Json::Obj(o)) && get(o, "inputs"@) matches Some(Json::Obj(_)),
    ensures
        ({
            let r = patched_prompt_spec(p, card, image, fps, frames, prefix, resolved, Seq::empty());
            let o = get(p, nid)->0->Obj_0;
            let inp = get(o, "inputs"@)->0->Obj_0;
            let positive = match obj_member(o, "_meta"@) {
                Some(meta) => match get(meta, "title"@) {
                    Some(Json::Str(t)) => contains(lower(t), "positive"@),
                    _ => false,
                },
                None => false,
            };
            get(r, nid) matches Some(Json::Obj(o2)) && get(o2, "inputs"@) matches Some(Json::Obj(out)) && {
                &&& (get(inp, "image"@) matches Some(Json::Null) || get(inp, "image"@) matches Some(Json::Str(_)))
                    ==> get(out, "image"@) == Some(Json::Str(image))
                &&& (get(inp, "image_path"@) matches Some(Json::Null) || get(inp, "image_path"@) matches Some(Json::Str(_)))
                    ==> get(out, "image_path"@) == Some(Json::Str(image))
                &&& (card.video_settings matches Some(v) && trim(v.format@).len() > 0 && has_key(inp, "format"@))
                    ==> get(out, "format"@) == Some(Json::Str(trim(card.video_settings->0.format@)))
                &&& (card.video_settings matches Some(v) && trim(v.codec@).len() > 0 && has_key(inp, "codec"@))
                    ==> get(out, "codec"@) == Some(Json::Str(trim(card.video_settings->0.codec@)))
                &&& (positive && trim(card.description@).len() > 0 && has_key(inp, "text"@))
                    ==> get(out, "text"@) == Some(Json::Str(trim(card.description@)))
                &&& !positive ==> get(out, "text"@) == get(inp, "text"@)
            }
        }),
{
    let ctx = card_ctx(card, image, fps, frames, prefix);
    let o = get(p, nid)->0->Obj_0;
    let inp = get(o, "inputs"@)->0->Obj_0;
    lemma_patched_node(p, card, image, fps, frames, prefix, resolved, nid);
    lemma_patch_inputs_media(inp, is_positive_node(o), ctx);
}


/// A spoken line with text adds the note `Dialogue – <speaker>: <line>`,
/// both trimmed; the speaker is the line's character when it is given and
/// not blank, and `Unknown` only otherwise. A line without text adds
/// nothing.
pub proof fn law_dialogue_note_names_speaker(lines: Seq<StructuredDialogueLine>, d: StructuredDialogueLine)
    ensures
        ({
            let text = opt_string_view(d.line);
            let who = opt_string_view(d.character);
            let speaker = if who is Some && trim(who->0).len() > 0 {
                trim(who->0)
            } else {
                "Unknown"@
            };
            &&& (text is Some && trim(text->0).len() > 0) ==> dialogue_notes(lines.push(d)) == dialogue_notes(lines).push(
                "Dialogue – "@ + speaker + ": "@ + trim(text->0),
            )
            &&& !(text is Some && trim(text->0).len() > 0) ==> dialogue_notes(lines.push(d)) == dialogue_notes(lines)
        }),
{
    assert(lines.push(d).drop_last() =~= lines);
}

/// A shot whose only note is one spoken line, with no characters listed,
/// has as its notes exactly `Dialogue – <character>: <line>` (both
/// trimmed), when the character and the line are not blank.
pub proof fn law_shot_dialogue_note(shot: StructuredShot, d: StructuredDialogueLine)
    requires
        shot.characters@.len() == 0,
        shot.sound matches Some(snd) && snd.music is None && snd.fx is None && snd.dialogue@ == seq![d],
        opt_string_view(d.line) matches Some(l) && trim(l).len() > 0,
        opt_string_view(d.character) matches Some(c) && trim(c).len() > 0,
    ensures
        shot_notes(shot) == "Dialogue – "@ + trim(opt_string_view(d.character)->0) + ": "@ + trim(
            opt_string_view(d.line)->0,
        ),
{
    let empty = Seq::<Seq<char>>::empty();
    assert(cleaned_names(shot.characters@) == empty);
    let r = sorted_unique(empty);
    assert(strictly_sorted(empty) && empty.to_set() == empty.to_set());
    assert(strictly_sorted(r) && r.to_set() == empty.to_set());
    if r.len() > 0 {
        assert(r.to_set().contains(r[0]));
    }
    assert(shot_characters(shot).len() == 0);
    law_dialogue_note_names_speaker(Seq::empty(), d);
    assert(seq![d] == Seq::<StructuredDialogueLine>::empty().push(d));
    let snd = shot.sound->0;
    assert(opt_part("Music: "@, clean_of(snd.music)) == empty);
    assert(opt_part("FX: "@, clean_of(snd.fx)) == empty);
    let note = "Dialogue – "@ + trim(opt_string_view(d.character)->0) + ": "@ + trim(opt_string_view(d.line)->0);
    assert(sound_notes(shot.sound) =~= seq![note]);
    assert((Seq::<Seq<char>>::empty() + sound_notes(shot.sound)) =~= seq![note]);
}



/// The pairs are named widget values: every value present at a place that
/// has a name (and is not `null`) comes under that name, and nothing else.
pub open spec fn widgets_named(pairs: Seq<(Seq<char>, Json)>, names: Seq<Seq<char>>, a: Seq<Json>) -> bool {
    &&& forall|i: int| 0 <= i < names.len() && i < a.len() && !(a[i] is Null) ==> #[trigger] pairs.contains((names[i], a[i]))
    &&& forall|j: int| 0 <= j < pairs.len() ==> exists|i: int|
        0 <= i < names.len() && i < a.len() && !(a[i] is Null) && #[trigger] pairs[j] == (names[i], a[i])
}

/// The first `n` widget values, named in order.
proof fn lemma_array_widget_pairs(keys: Seq<Seq<char>>, a: Seq<Json>, n: nat)
    requires
        n <= keys.len(),
    ensures
        forall|i: int| 0 <= i < n && i < a.len() && !(a[i] is Null) ==> #[trigger] array_widget_pairs(keys, a, n).contains((keys[i], a[i])),
        forall|j: int| 0 <= j < array_widget_pairs(keys, a, n).len() ==> exists|i: int|
            0 <= i < n && i < a.len() && !(a[i] is Null) && #[trigger] array_widget_pairs(keys, a, n)[j] == (keys[i], a[i]),
    decreases n,
{
    if n > 0 {
        let m = (n - 1) as nat;
        lemma_array_widget_pairs(keys, a, m);
        let prev = array_widget_pairs(keys, a, m);
        let cur = array_widget_pairs(keys, a, n);
        let i0 = n - 1;
        if i0 < a.len() && !(a[i0] is Null) {
            assert(cur == prev.push((keys[i0], a[i0])));
            assert(cur[prev.len() as int] == (keys[i0], a[i0]));
            assert forall|i: int| 0 <= i < n && i < a.len() && !(a[i] is Null) implies #[trigger] cur.contains((keys[i], a[i])) by {
                if i < i0 {
                    assert(prev.contains((keys[i], a[i])));
                    let j = choose|j: int| 0 <= j < prev.len() && prev[j] == (keys[i], a[i]);
                    assert(cur[j] == prev[j]);
                }
            }
            assert forall|j: int| 0 <= j < cur.len() implies exists|i: int|
                0 <= i < n && i < a.len() && !(a[i] is Null) && #[trigger] cur[j] == (keys[i], a[i]) by {
                if j < prev.len() {
                    assert(cur[j] == prev[j]);
                    let i = choose|i: int| 0 <= i < m && i < a.len() && !(a[i] is Null) && prev[j] == (keys[i], a[i]);
                    assert(cur[j] == (keys[i], a[i]));
                } else {
                    assert(cur[j] == (keys[i0], a[i0]));
                }
            }
        } else {
            assert(cur == prev);
        }
    }
}

/// A class whose widget names are `names` has its array widget values named
/// by them.
proof fn lemma_class_widgets(c: Seq<char>, names: Seq<Seq<char>>, a: Seq<Json>)
    requires
        widget_keys(c) == names,
    ensures
        widgets_named(widget_pairs(c, Json::Arr(a)), names, a),
{
    lemma_array_widget_pairs(names, a, names.len());
}

/// The widget names of `SaveVideo`.
proof fn lemma_widget_keys_savevideo()
    ensures
        widget_keys("SaveVideo"@) == seq!["filename_prefix"@, "format"@, "codec"@],
{
    reveal_strlit("SaveVideo");
    reveal_strlit("filename_prefix");
    reveal_strlit("format");
    reveal_strlit("codec");
    assert(widget_keys("SaveVideo"@) =~= seq!["filename_prefix"@, "format"@, "codec"@]);
}

/// The widget names of `SaveImage`.
proof fn lemma_widget_keys_saveimage()
    ensures
        widget_keys("SaveImage"@) == seq!["filename_prefix"@],
{
    reveal_strlit("SaveImage");
    reveal_strlit("SaveVideo");
    assert("SaveImage"@[4] != "SaveVideo"@[4]);
    reveal_strlit("filename_prefix");
    assert(widget_keys("SaveImage"@) =~= seq!["filename_prefix"@]);
}

/// The widget names of `ImageSave`.
proof fn lemma_widget_keys_imagesave()
    ensures
        widget_keys("ImageSave"@) == seq!["filename_prefix"@],
{
    reveal_strlit("ImageSave");
    reveal_strlit("SaveVideo");
    assert("ImageSave"@[0] != "SaveVideo"@[0]);
    reveal_strlit("SaveImage");
    assert("ImageSave"@[0] != "SaveImage"@[0]);
    reveal_strlit("filename_prefix");
    assert(widget_keys("ImageSave"@) =~= seq!["filename_prefix"@]);
}

/// The widget names of `SaveImageBuiltin`.
proof fn lemma_widget_keys_saveimagebuiltin()
    ensures
        widget_keys("SaveImageBuiltin"@) == seq!["filename_prefix"@],
{
    reveal_strlit("SaveImageBuiltin");
    reveal_strlit("SaveVideo");
    assert("SaveImageBuiltin"@.len() != "SaveVideo"@.len());
    reveal_strlit("SaveImage");
    assert("SaveImageBuiltin"@.len() != "SaveImage"@.len());
    reveal_strlit("ImageSave");
    assert("SaveImageBuiltin"@.len() != "ImageSave"@.len());
    reveal_strlit("filename_prefix");
    assert(widget_keys("SaveImageBuiltin"@) =~= seq!["filename_prefix"@]);
}

/// The widget names of `CreateVideo`.
proof fn lemma_widget_keys_createvideo()
    ensures
        widget_keys("CreateVideo"@) == seq!["fps"@],
{
    reveal_strlit("CreateVideo");
    reveal_strlit("SaveVideo");
    assert("CreateVideo"@.len() != "SaveVideo"@.len());
    reveal_strlit("SaveImage");
    assert("CreateVideo"@.len() != "SaveImage"@.len());
    reveal_strlit("ImageSave");
    assert("CreateVideo"@.len() != "ImageSave"@.len());
    reveal_strlit("SaveImageBuiltin");
    assert("CreateVideo"@.len() != "SaveImageBuiltin"@.len());
    reveal_strlit("fps");
    assert(widget_keys("CreateVideo"@) =~= seq!["fps"@]);
}

/// The widget names of `WanImageToVideo`.
proof fn lemma_widget_keys_wanimagetovideo()
    ensures
        widget_keys("WanImageToVideo"@) == seq!["width"@, "height"@, "length"@, "batch_size"@],
{
    reveal_strlit("WanImageToVideo");
    reveal_strlit("SaveVideo");
    assert("WanImageToVideo"@.len() != "SaveVideo"@.len());
    reveal_strlit("SaveImage");
    assert("WanImageToVideo"@.len() != "SaveImage"@.len());
    reveal_strlit("ImageSave");
    assert("WanImageToVideo"@.len() != "ImageSave"@.len());
    reveal_strlit("SaveImageBuiltin");
    assert("WanImageToVideo"@.len() != "SaveImageBuiltin"@.len());
    reveal_strlit("CreateVideo");
    assert("WanImageToVideo"@.len() != "CreateVideo"@.len());
    reveal_strlit("width");
    reveal_strlit("height");
    reveal_strlit("length");
    reveal_strlit("batch_size");
    assert(widget_keys("WanImageToVideo"@) =~= seq!["width"@, "height"@, "length"@, "batch_size"@]);
}

/// The widget names of `Wan22ImageToVideoLatent`.
proof fn lemma_widget_keys_wan22imagetovideolatent()
    ensures
        widget_keys("Wan22ImageToVideoLatent"@) == seq!["width"@, "height"@, "length"@, "batch_size"@],
{
    reveal_strlit("Wan22ImageToVideoLatent");
    reveal_strlit("SaveVideo");
    assert("Wan22ImageToVideoLatent"@.len() != "SaveVideo"@.len());
    reveal_strlit("SaveImage");
    assert("Wan22ImageToVideoLatent"@.len() != "SaveImage"@.len());
    reveal_strlit("ImageSave");
    assert("Wan22ImageToVideoLatent"@.len() != "ImageSave"@.len());
    reveal_strlit("SaveImageBuiltin");
    assert("Wan22ImageToVideoLatent"@.len() != "SaveImageBuiltin"@.len());
    reveal_strlit("CreateVideo");
    assert("Wan22ImageToVideoLatent"@.len() != "CreateVideo"@.len());
    reveal_strlit("WanImageToVideo");
    assert("Wan22ImageToVideoLatent"@.len() != "WanImageToVideo"@.len());
    reveal_strlit("width");
    reveal_strlit("height");
    reveal_strlit("length");
    reveal_strlit("batch_size");
    assert(widget_keys("Wan22ImageToVideoLatent"@) =~= seq!["width"@, "height"@, "length"@, "batch_size"@]);
}

/// The widget names of `ModelSamplingSD3`.
proof fn lemma_widget_keys_modelsamplingsd3()
    ensures
        widget_keys("ModelSamplingSD3"@) == seq!["shift"@],
{
    reveal_strlit("ModelSamplingSD3");
    reveal_strlit("SaveVideo");
    assert("ModelSamplingSD3"@.len() != "SaveVideo"@.len());
    reveal_strlit("SaveImage");
    assert("ModelSamplingSD3"@.len() != "SaveImage"@.len());
    reveal_strlit("ImageSave");
    assert("ModelSamplingSD3"@.len() != "ImageSave"@.len());
    reveal_strlit("SaveImageBuiltin");
    assert("ModelSamplingSD3"@[0] != "SaveImageBuiltin"@[0]);
    reveal_strlit("CreateVideo");
    assert("ModelSamplingSD3"@.len() != "CreateVideo"@.len());
    reveal_strlit("WanImageToVideo");
    assert("ModelSamplingSD3"@.len() != "WanImageToVideo"@.len());
    reveal_strlit("Wan22ImageToVideoLatent");
    assert("ModelSamplingSD3"@.len() != "Wan22ImageToVideoLatent"@.len());
    reveal_strlit("shift");
    assert(widget_keys("ModelSamplingSD3"@) =~= seq!["shift"@]);
}

/// The widget names of `UNETLoader`.
proof fn lemma_widget_keys_unetloader()
    ensures
        widget_keys("UNETLoader"@) == seq!["unet_name"@, "weight_dtype"@],
{
    reveal_strlit("UNETLoader");
    reveal_strlit("SaveVideo");
    assert("UNETLoader"@.len() != "SaveVideo"@.len());
    reveal_strlit("SaveImage");
    assert("UNETLoader"@.len() != "SaveImage"@.len());
    reveal_strlit("ImageSave");
    assert("UNETLoader"@.len() != "ImageSave"@.len());
    reveal_strlit("SaveImageBuiltin");
    assert("UNETLoader"@.len() != "SaveImageBuiltin"@.len());
    reveal_strlit("CreateVideo");
    assert("UNETLoader"@.len() != "CreateVideo"@.len());
    reveal_strlit("WanImageToVideo");
    assert("UNETLoader"@.len() != "WanImageToVideo"@.len());
    reveal_strlit("Wan22ImageToVideoLatent");
    assert("UNETLoader"@.len() != "Wan22ImageToVideoLatent"@.len());
    reveal_strlit("ModelSamplingSD3");
    assert("UNETLoader"@.len() != "ModelSamplingSD3"@.len());
    reveal_strlit("unet_name");
    reveal_strlit("weight_dtype");
    assert(widget_keys("UNETLoader"@) =~= seq!["unet_name"@, "weight_dtype"@]);
}

/// The widget names of `LoraLoaderModelOnly`.
proof fn lemma_widget_keys_loraloadermodelonly()
    ensures
        widget_keys("LoraLoaderModelOnly"@) == seq!["lora_name"@, "strength_model"@],
{
    reveal_strlit("LoraLoaderModelOnly");
    reveal_strlit("SaveVideo");
    assert("LoraLoaderModelOnly"@.len() != "SaveVideo"@.len());
    reveal_strlit("SaveImage");
    assert("LoraLoaderModelOnly"@.len() != "SaveImage"@.len());
    reveal_strlit("ImageSave");
    assert("LoraLoaderModelOnly"@.len() != "ImageSave"@.len());
    reveal_strlit("SaveImageBuiltin");
    assert("LoraLoaderModelOnly"@.len() != "SaveImageBuiltin"@.len());
    reveal_strlit("CreateVideo");
    assert("LoraLoaderModelOnly"@.len() != "CreateVideo"@.len());
    reveal_strlit("WanImageToVideo");
    assert("LoraLoaderModelOnly"@.len() != "WanImageToVideo"@.len());
    reveal_strlit("Wan22ImageToVideoLatent");
    assert("LoraLoaderModelOnly"@.len() != "Wan22ImageToVideoLatent"@.len());
    reveal_strlit("ModelSamplingSD3");
    assert("LoraLoaderModelOnly"@.len() != "ModelSamplingSD3"@.len());
    reveal_strlit("UNETLoader");
    assert("LoraLoaderModelOnly"@.len() != "UNETLoader"@.len());
    reveal_strlit("lora_name");
    reveal_strlit("strength_model");
    assert(widget_keys("LoraLoaderModelOnly"@) =~= seq!["lora_name"@, "strength_model"@]);
}

/// The widget names of `CLIPLoader`.
proof fn lemma_widget_keys_cliploader()
    ensures
        widget_keys("CLIPLoader"@) == seq!["clip_name"@, "type"@, "device"@],
{
    reveal_strlit("CLIPLoader");
    reveal_strlit("SaveVideo");
    assert("CLIPLoader"@.len() != "SaveVideo"@.len());
    reveal_strlit("SaveImage");
    assert("CLIPLoader"@.len() != "SaveImage"@.len());
    reveal_strlit("ImageSave");
    assert("CLIPLoader"@.len() != "ImageSave"@.len());
    reveal_strlit("SaveImageBuiltin");
    assert("CLIPLoader"@.len() != "SaveImageBuiltin"@.len());
    reveal_strlit("CreateVideo");
    assert("CLIPLoader"@.len() != "CreateVideo"@.len());
    reveal_strlit("WanImageToVideo");
    assert("CLIPLoader"@.len() != "WanImageToVideo"@.len());
    reveal_strlit("Wan22ImageToVideoLatent");
    assert("CLIPLoader"@.len() != "Wan22ImageToVideoLatent"@.len());
    reveal_strlit("ModelSamplingSD3");
    assert("CLIPLoader"@.len() != "ModelSamplingSD3"@.len());
    reveal_strlit("UNETLoader");
    assert("CLIPLoader"@[0] != "UNETLoader"@[0]);
    reveal_strlit("LoraLoaderModelOnly");
    assert("CLIPLoader"@.len() != "LoraLoaderModelOnly"@.len());
    reveal_strlit("clip_name");
    reveal_strlit("type");
    reveal_strlit("device");
    assert(widget_keys("CLIPLoader"@) =~= seq!["clip_name"@, "type"@, "device"@]);
}

/// The widget names of `CLIPTextEncode`.
proof fn lemma_widget_keys_cliptextencode()
    ensures
        widget_keys("CLIPTextEncode"@) == seq!["text"@, "clip_skip"@],
{
    reveal_strlit("CLIPTextEncode");
    reveal_strlit("SaveVideo");
    assert("CLIPTextEncode"@.len() != "SaveVideo"@.len());
    reveal_strlit("SaveImage");
    assert("CLIPTextEncode"@.len() != "SaveImage"@.len());
    reveal_strlit("ImageSave");
    assert("CLIPTextEncode"@.len() != "ImageSave"@.len());
    reveal_strlit("SaveImageBuiltin");
    assert("CLIPTextEncode"@.len() != "SaveImageBuiltin"@.len());
    reveal_strlit("CreateVideo");
    assert("CLIPTextEncode"@.len() != "CreateVideo"@.len());
    reveal_strlit("WanImageToVideo");
    assert("CLIPTextEncode"@.len() != "WanImageToVideo"@.len());
    reveal_strlit("Wan22ImageToVideoLatent");
    assert("CLIPTextEncode"@.len() != "Wan22ImageToVideoLatent"@.len());
    reveal_strlit("ModelSamplingSD3");
    assert("CLIPTextEncode"@.len() != "ModelSamplingSD3"@.len());
    reveal_strlit("UNETLoader");
    assert("CLIPTextEncode"@.len() != "UNETLoader"@.len());
    reveal_strlit("LoraLoaderModelOnly");
    assert("CLIPTextEncode"@.len() != "LoraLoaderModelOnly"@.len());
    reveal_strlit("CLIPLoader");
    assert("CLIPTextEncode"@.len() != "CLIPLoader"@.len());
    reveal_strlit("text");
    reveal_strlit("clip_skip");
    assert(widget_keys("CLIPTextEncode"@) =~= seq!["text"@, "clip_skip"@]);
}

/// The widget names of `VAELoader`.
proof fn lemma_widget_keys_vaeloader()
    ensures
        widget_keys("VAELoader"@) == seq!["vae_name"@],
{
    reveal_strlit("VAELoader");
    reveal_strlit("SaveVideo");
    assert("VAELoader"@[0] != "SaveVideo"@[0]);
    reveal_strlit("SaveImage");
    assert("VAELoader"@[0] != "SaveImage"@[0]);
    reveal_strlit("ImageSave");
    assert("VAELoader"@[0] != "ImageSave"@[0]);
    reveal_strlit("SaveImageBuiltin");
    assert("VAELoader"@.len() != "SaveImageBuiltin"@.len());
    reveal_strlit("CreateVideo");
    assert("VAELoader"@.len() != "CreateVideo"@.len());
    reveal_strlit("WanImageToVideo");
    assert("VAELoader"@.len() != "WanImageToVideo"@.len());
    reveal_strlit("Wan22ImageToVideoLatent");
    assert("VAELoader"@.len() != "Wan22ImageToVideoLatent"@.len());
    reveal_strlit("ModelSamplingSD3");
    assert("VAELoader"@.len() != "ModelSamplingSD3"@.len());
    reveal_strlit("UNETLoader");
    assert("VAELoader"@.len() != "UNETLoader"@.len());
    reveal_strlit("LoraLoaderModelOnly");
    assert("VAELoader"@.len() != "LoraLoaderModelOnly"@.len());
    reveal_strlit("CLIPLoader");
    assert("VAELoader"@.len() != "CLIPLoader"@.len());
    reveal_strlit("CLIPTextEncode");
    assert("VAELoader"@.len() != "CLIPTextEncode"@.len());
    reveal_strlit("vae_name");
    assert(widget_keys("VAELoader"@) =~= seq!["vae_name"@]);
}

/// The widget names of `LoadImage`.
proof fn lemma_widget_keys_loadimage()
    ensures
        widget_keys("LoadImage"@) == seq!["image"@],
{
    reveal_strlit("LoadImage");
    reveal_strlit("SaveVideo");
    assert("LoadImage"@[0] != "SaveVideo"@[0]);
    reveal_strlit("SaveImage");
    assert("LoadImage"@[0] != "SaveImage"@[0]);
    reveal_strlit("ImageSave");
    assert("LoadImage"@[0] != "ImageSave"@[0]);
    reveal_strlit("SaveImageBuiltin");
    assert("LoadImage"@.len() != "SaveImageBuiltin"@.len());
    reveal_strlit("CreateVideo");
    assert("LoadImage"@.len() != "CreateVideo"@.len());
    reveal_strlit("WanImageToVideo");
    assert("LoadImage"@.len() != "WanImageToVideo"@.len());
    reveal_strlit("Wan22ImageToVideoLatent");
    assert("LoadImage"@.len() != "Wan22ImageToVideoLatent"@.len());
    reveal_strlit("ModelSamplingSD3");
    assert("LoadImage"@.len() != "ModelSamplingSD3"@.len());
    reveal_strlit("UNETLoader");
    assert("LoadImage"@.len() != "UNETLoader"@.len());
    reveal_strlit("LoraLoaderModelOnly");
    assert("LoadImage"@.len() != "LoraLoaderModelOnly"@.len());
    reveal_strlit("CLIPLoader");
    assert("LoadImage"@.len() != "CLIPLoader"@.len());
    reveal_strlit("CLIPTextEncode");
    assert("LoadImage"@.len() != "CLIPTextEncode"@.len());
    reveal_strlit("VAELoader");
    assert("LoadImage"@[0] != "VAELoader"@[0]);
    reveal_strlit("image");
    assert(widget_keys("LoadImage"@) =~= seq!["image"@]);
}

/// The widget names of `KSamplerAdvanced`.
proof fn lemma_widget_keys_ksampleradvanced()
    ensures
        widget_keys("KSamplerAdvanced"@) == seq!["add_noise"@, "noise_seed"@, "noise_seed_behavior"@, "steps"@, "cfg"@, "sampler_name"@, "scheduler"@, "start_at_step"@, "end_at_step"@, "return_with_leftover_noise"@],
{
    reveal_strlit("KSamplerAdvanced");
    reveal_strlit("SaveVideo");
    assert("KSamplerAdvanced"@.len() != "SaveVideo"@.len());
    reveal_strlit("SaveImage");
    assert("KSamplerAdvanced"@.len() != "SaveImage"@.len());
    reveal_strlit("ImageSave");
    assert("KSamplerAdvanced"@.len() != "ImageSave"@.len());
    reveal_strlit("SaveImageBuiltin");
    assert("KSamplerAdvanced"@[0] != "SaveImageBuiltin"@[0]);
    reveal_strlit("CreateVideo");
    assert("KSamplerAdvanced"@.len() != "CreateVideo"@.len());
    reveal_strlit("WanImageToVideo");
    assert("KSamplerAdvanced"@.len() != "WanImageToVideo"@.len());
    reveal_strlit("Wan22ImageToVideoLatent");
    assert("KSamplerAdvanced"@.len() != "Wan22ImageToVideoLatent"@.len());
    reveal_strlit("ModelSamplingSD3");
    assert("KSamplerAdvanced"@[0] != "ModelSamplingSD3"@[0]);
    reveal_strlit("UNETLoader");
    assert("KSamplerAdvanced"@.len() != "UNETLoader"@.len());
    reveal_strlit("LoraLoaderModelOnly");
    assert("KSamplerAdvanced"@.len() != "LoraLoaderModelOnly"@.len());
    reveal_strlit("CLIPLoader");
    assert("KSamplerAdvanced"@.len() != "CLIPLoader"@.len());
    reveal_strlit("CLIPTextEncode");
    assert("KSamplerAdvanced"@.len() != "CLIPTextEncode"@.len());
    reveal_strlit("VAELoader");
    assert("KSamplerAdvanced"@.len() != "VAELoader"@.len());
    reveal_strlit("LoadImage");
    assert("KSamplerAdvanced"@.len() != "LoadImage"@.len());
    reveal_strlit("add_noise");
    reveal_strlit("noise_seed");
    reveal_strlit("noise_seed_behavior");
    reveal_strlit("steps");
    reveal_strlit("cfg");
    reveal_strlit("sampler_name");
    reveal_strlit("scheduler");
    reveal_strlit("start_at_step");
    reveal_strlit("end_at_step");
    reveal_strlit("return_with_leftover_noise");
    assert(widget_keys("KSamplerAdvanced"@) =~= seq!["add_noise"@, "noise_seed"@, "noise_seed_behavior"@, "steps"@, "cfg"@, "sampler_name"@, "scheduler"@, "start_at_step"@, "end_at_step"@, "return_with_leftover_noise"@]);
}

/// The widget names of `KSampler`.
proof fn lemma_widget_keys_ksampler()
    ensures
        widget_keys("KSampler"@) == seq!["seed"@, "steps"@, "cfg"@, "sampler_name"@, "scheduler"@, "denoise"@],
{
    reveal_strlit("KSampler");
    reveal_strlit("SaveVideo");
    assert("KSampler"@.len() != "SaveVideo"@.len());
    reveal_strlit("SaveImage");
    assert("KSampler"@.len() != "SaveImage"@.len());
    reveal_strlit("ImageSave");
    assert("KSampler"@.len() != "ImageSave"@.len());
    reveal_strlit("SaveImageBuiltin");
    assert("KSampler"@.len() != "SaveImageBuiltin"@.len());
    reveal_strlit("CreateVideo");
    assert("KSampler"@.len() != "CreateVideo"@.len());
    reveal_strlit("WanImageToVideo");
    assert("KSampler"@.len() != "WanImageToVideo"@.len());
    reveal_strlit("Wan22ImageToVideoLatent");
    assert("KSampler"@.len() != "Wan22ImageToVideoLatent"@.len());
    reveal_strlit("ModelSamplingSD3");
    assert("KSampler"@.len() != "ModelSamplingSD3"@.len());
    reveal_strlit("UNETLoader");
    assert("KSampler"@.len() != "UNETLoader"@.len());
    reveal_strlit("LoraLoaderModelOnly");
    assert("KSampler"@.len() != "LoraLoaderModelOnly"@.len());
    reveal_strlit("CLIPLoader");
    assert("KSampler"@.len() != "CLIPLoader"@.len());
    reveal_strlit("CLIPTextEncode");
    assert("KSampler"@.len() != "CLIPTextEncode"@.len());
    reveal_strlit("VAELoader");
    assert("KSampler"@.len() != "VAELoader"@.len());
    reveal_strlit("LoadImage");
    assert("KSampler"@.len() != "LoadImage"@.len());
    reveal_strlit("KSamplerAdvanced");
    assert("KSampler"@.len() != "KSamplerAdvanced"@.len());
    reveal_strlit("seed");
    reveal_strlit("steps");
    reveal_strlit("cfg");
    reveal_strlit("sampler_name");
    reveal_strlit("scheduler");
    reveal_strlit("denoise");
    assert(widget_keys("KSampler"@) =~= seq!["seed"@, "steps"@, "cfg"@, "sampler_name"@, "scheduler"@, "denoise"@]);
}

/// The names the graph format gives a node's widget values, class by
/// class, in ComfyUI's widget order: the value at place `i` of a node's
/// `widgets_values` array becomes the input named by the `i`-th name listed
/// for its class (values that are missing or `null` give nothing); for
/// example the first value of a `CLIPTextEncode` node is its `text` and the
/// second its `clip_skip`.
pub proof fn law_widget_values_are_named_in_order(a: Seq<Json>)
    ensures
        widgets_named(widget_pairs("SaveVideo"@, Json::Arr(a)), seq!["filename_prefix"@, "format"@, "codec"@], a),
        widgets_named(widget_pairs("SaveImage"@, Json::Arr(a)), seq!["filename_prefix"@], a),
        widgets_named(widget_pairs("ImageSave"@, Json::Arr(a)), seq!["filename_prefix"@], a),
        widgets_named(widget_pairs("SaveImageBuiltin"@, Json::Arr(a)), seq!["filename_prefix"@], a),
        widgets_named(widget_pairs("CreateVideo"@, Json::Arr(a)), seq!["fps"@], a),
        widgets_named(widget_pairs("WanImageToVideo"@, Json::Arr(a)), seq!["width"@, "height"@, "length"@, "batch_size"@], a),
        widgets_named(widget_pairs("Wan22ImageToVideoLatent"@, Json::Arr(a)), seq!["width"@, "height"@, "length"@, "batch_size"@], a),
        widgets_named(widget_pairs("ModelSamplingSD3"@, Json::Arr(a)), seq!["shift"@], a),
        widgets_named(widget_pairs("UNETLoader"@, Json::Arr(a)), seq!["unet_name"@, "weight_dtype"@], a),
        widgets_named(widget_pairs("LoraLoaderModelOnly"@, Json::Arr(a)), seq!["lora_name"@, "strength_model"@], a),
        widgets_named(widget_pairs("CLIPLoader"@, Json::Arr(a)), seq!["clip_name"@, "type"@, "device"@], a),
        widgets_named(widget_pairs("CLIPTextEncode"@, Json::Arr(a)), seq!["text"@, "clip_skip"@], a),
        widgets_named(widget_pairs("VAELoader"@, Json::Arr(a)), seq!["vae_name"@], a),
        widgets_named(widget_pairs("LoadImage"@, Json::Arr(a)), seq!["image"@], a),
        widgets_named(widget_pairs("KSamplerAdvanced"@, Json::Arr(a)), seq!["add_noise"@, "noise_seed"@, "noise_seed_behavior"@, "steps"@, "cfg"@, "sampler_name"@, "scheduler"@, "start_at_step"@, "end_at_step"@, "return_with_leftover_noise"@], a),
        widgets_named(widget_pairs("KSampler"@, Json::Arr(a)), seq!["seed"@, "steps"@, "cfg"@, "sampler_name"@, "scheduler"@, "denoise"@], a),
{
    lemma_widget_keys_savevideo();
    lemma_class_widgets("SaveVideo"@, seq!["filename_prefix"@, "format"@, "codec"@], a);
    lemma_widget_keys_saveimage();
    lemma_class_widgets("SaveImage"@, seq!["filename_prefix"@], a);
    lemma_widget_keys_imagesave();
    lemma_class_widgets("ImageSave"@, seq!["filename_prefix"@], a);
    lemma_widget_keys_saveimagebuiltin();
    lemma_class_widgets("SaveImageBuiltin"@, seq!["filename_prefix"@], a);
    lemma_widget_keys_createvideo();
    lemma_class_widgets("CreateVideo"@, seq!["fps"@], a);
    lemma_widget_keys_wanimagetovideo();
    lemma_class_widgets("WanImageToVideo"@, seq!["width"@, "height"@, "length"@, "batch_size"@], a);
    lemma_widget_keys_wan22imagetovideolatent();
    lemma_class_widgets("Wan22ImageToVideoLatent"@, seq!["width"@, "height"@, "length"@, "batch_size"@], a);
    lemma_widget_keys_modelsamplingsd3();
    lemma_class_widgets("ModelSamplingSD3"@, seq!["shift"@], a);
    lemma_widget_keys_unetloader();
    lemma_class_widgets("UNETLoader"@, seq!["unet_name"@, "weight_dtype"@], a);
    lemma_widget_keys_loraloadermodelonly();
    lemma_class_widgets("LoraLoaderModelOnly"@, seq!["lora_name"@, "strength_model"@], a);
    lemma_widget_keys_cliploader();
    lemma_class_widgets("CLIPLoader"@, seq!["clip_name"@, "type"@, "device"@], a);
    lemma_widget_keys_cliptextencode();
    lemma_class_widgets("CLIPTextEncode"@, seq!["text"@, "clip_skip"@], a);
    lemma_widget_keys_vaeloader();
    lemma_class_widgets("VAELoader"@, seq!["vae_name"@], a);
    lemma_widget_keys_loadimage();
    lemma_class_widgets("LoadImage"@, seq!["image"@], a);
    lemma_widget_keys_ksampleradvanced();
    lemma_class_widgets("KSamplerAdvanced"@, seq!["add_noise"@, "noise_seed"@, "noise_seed_behavior"@, "steps"@, "cfg"@, "sampler_name"@, "scheduler"@, "start_at_step"@, "end_at_step"@, "return_with_leftover_noise"@], a);
    lemma_widget_keys_ksampler();
    lemma_class_widgets("KSampler"@, seq!["seed"@, "steps"@, "cfg"@, "sampler_name"@, "scheduler"@, "denoise"@], a);
}


/// Pairs added where their name is unset keep what was set and bring the
/// first value of each new name.
proof fn lemma_add_absent(m: Seq<(Seq<char>, Json)>, pairs: Seq<(Seq<char>, Json)>)
    ensures
        forall|k: Seq<char>| #[trigger] has_key(m, k) ==> get(add_absent(m, pairs), k) == get(m, k),
        forall|i: int| 0 <= i < pairs.len() && !has_key(m, pairs[i].0) && (forall|j: int| 0 <= j < i ==> pairs[j].0 != pairs[i].0)
            ==> get(add_absent(m, pairs), #[trigger] pairs[i].0) == Some(pairs[i].1),
        forall|k: Seq<char>| #[trigger] has_key(add_absent(m, pairs), k) ==> has_key(m, k) || exists|i: int| 0 <= i < pairs.len() && pairs[i].0 == k,
    decreases pairs.len(),
{
    if pairs.len() > 0 {
        let prev_pairs = pairs.drop_last();
        lemma_add_absent(m, prev_pairs);
        let prev = add_absent(m, prev_pairs);
        let last = pairs.last();
        let r = add_absent(m, pairs);
        if !has_key(prev, last.0) {
            assert(r == prev.push(last));
            assert(r == insert(prev, last.0, last.1));
            assert forall|k: Seq<char>| has_key(prev, k) implies get(r, k) == get(prev, k) by {
                if k != last.0 {
                    lemma_get_insert_other(prev, last.0, last.1, k);
                }
            }
            lemma_get_insert_same(prev, last.0, last.1);
            assert forall|k: Seq<char>| #[trigger] has_key(r, k) implies has_key(m, k) || exists|i: int| 0 <= i < pairs.len() && pairs[i].0 == k by {
                if k != last.0 {
                    lemma_get_insert_other(prev, last.0, last.1, k);
                    if !has_key(m, k) {
                        let i = choose|i: int| 0 <= i < prev_pairs.len() && prev_pairs[i].0 == k;
                        assert(pairs[i] == prev_pairs[i]);
                    }
                } else {
                    assert(pairs[pairs.len() - 1].0 == k);
                }
            }
        }
        assert forall|i: int| 0 <= i < pairs.len() && !has_key(m, pairs[i].0) && (forall|j: int| 0 <= j < i ==> pairs[j].0 != pairs[i].0)
            implies get(r, #[trigger] pairs[i].0) == Some(pairs[i].1) by {
            if i < pairs.len() - 1 {
                assert(pairs[i] == prev_pairs[i]);
                assert forall|j: int| 0 <= j < i implies prev_pairs[j].0 != prev_pairs[i].0 by {
                    assert(pairs[j] == prev_pairs[j]);
                }
                assert(get(prev, prev_pairs[i].0) == Some(prev_pairs[i].1));
                assert(has_key(prev, pairs[i].0));
                if !has_key(prev, last.0) {
                    assert(has_key(prev, pairs[i].0));
                }
            } else {
                if has_key(prev, last.0) {
                    let j = choose|j: int| 0 <= j < prev_pairs.len() && prev_pairs[j].0 == last.0;
                    assert(pairs[j] == prev_pairs[j]);
                    assert(false);
                }
            }
        }
    }
}

/// A converted graph node takes a widget value for every input that its
/// `inputs` array leaves unset: the first widget value of each name comes
/// under that name, and every input the array set (a link or a value) keeps
/// what the array gave it. With the widget order above, the first widget
/// value of a `CLIPTextEncode` node without a `text` input is its `text`.
pub proof fn law_widgets_fill_unset_inputs(e: Seq<(Seq<char>, Json)>, class: Seq<char>, t: Seq<(i64, i64, i64)>, w: Json)
    requires
        get(e, "widgets_values"@) == Some(w),
    ensures
        ({
            let base = match get(e, "inputs"@) {
                Some(Json::Arr(a)) => inputs_from(a, t),
                _ => Seq::empty(),
            };
            let pairs = widget_pairs(class, w);
            let r = node_inputs(e, class, t);
            &&& forall|k: Seq<char>| #[trigger] has_key(base, k) ==> get(r, k) == get(base, k)
            &&& forall|i: int| 0 <= i < pairs.len() && !has_key(base, pairs[i].0) && (forall|j: int| 0 <= j < i ==> pairs[j].0 != pairs[i].0)
                ==> get(r, #[trigger] pairs[i].0) == Some(pairs[i].1)
        }),
{
    let base = match get(e, "inputs"@) {
        Some(Json::Arr(a)) => inputs_from(a, t),
        _ => Seq::empty(),
    };
    lemma_add_absent(base, widget_pairs(class, w));
}

/// The first widget value of a `CLIPTextEncode` node, when it is not
/// `null` and the node's `inputs` array does not set `text`, is the
/// converted node's `text`; its second, likewise, its `clip_skip`.
pub proof fn law_text_encoder_widgets(e: Seq<(Seq<char>, Json)>, t: Seq<(i64, i64, i64)>, a: Seq<Json>)
    requires
        get(e, "widgets_values"@) == Some(Json::Arr(a)),
    ensures
        ({
            let base = match get(e, "inputs"@) {
                Some(Json::Arr(x)) => inputs_from(x, t),
                _ => Seq::empty(),
            };
            let r = node_inputs(e, "CLIPTextEncode"@, t);
            &&& (a.len() > 0 && !(a[0] is Null) && !has_key(base, "text"@)) ==> get(r, "text"@) == Some(a[0])
            &&& (a.len() > 1 && !(a[1] is Null) && !has_key(base, "clip_skip"@)) ==> get(r, "clip_skip"@) == Some(a[1])
        }),
{
    let base = match get(e, "inputs"@) {
        Some(Json::Arr(x)) => inputs_from(x, t),
        _ => Seq::empty(),
    };
    reveal_strlit("text");
    reveal_strlit("clip_skip");
    assert("text"@.len() != "clip_skip"@.len());
    let pairs = widget_pairs("CLIPTextEncode"@, Json::Arr(a));
    lemma_widget_keys_cliptextencode();
    law_widgets_fill_unset_inputs(e, "CLIPTextEncode"@, t, Json::Arr(a));
    let names = seq!["text"@, "clip_skip"@];
    reveal_with_fuel(array_widget_pairs, 3);
    assert(pairs == array_widget_pairs(names, a, 2));
    assert forall|i: int, j: int| 0 <= j < i < pairs.len() implies pairs[j].0 != pairs[i].0 by {
        assert(pairs.len() == 2);
        assert(pairs[0].0 == "text"@ && pairs[1].0 == "clip_skip"@);
    }
    assert(pairs.len() <= 2);
    if a.len() > 0 && !(a[0] is Null) && !has_key(base, "text"@) {
        assert(pairs[0] == ("text"@, a[0]));
    }
    if a.len() > 1 && !(a[1] is Null) && !has_key(base, "clip_skip"@) {
        let i = pairs.len() - 1;
        assert(pairs[i] == ("clip_skip"@, a[1]));
    }
}


/// Widget values given as an object come under their own names: the
/// result holds exactly the members that are neither `null` nor objects,
/// whatever the node's class.
pub proof fn law_object_widgets_keep_plain_members(class: Seq<char>, e: Seq<(Seq<char>, Json)>)
    ensures
        forall|i: int| 0 <= i < e.len() && !(e[i].1 is Null) && !(e[i].1 is Obj) ==> #[trigger] widget_pairs(class, Json::Obj(e)).contains(e[i]),
        forall|j: int| 0 <= j < widget_pairs(class, Json::Obj(e)).len() ==> {
            let x = #[trigger] widget_pairs(class, Json::Obj(e))[j];
            e.contains(x) && !(x.1 is Null) && !(x.1 is Obj)
        },
    decreases e.len(),
{
    if e.len() > 0 {
        let prev = e.drop_last();
        law_object_widgets_keep_plain_members(class, prev);
        let pp = widget_pairs(class, Json::Obj(prev));
        let cur = widget_pairs(class, Json::Obj(e));
        assert forall|i: int| 0 <= i < e.len() && !(e[i].1 is Null) && !(e[i].1 is Obj) implies #[trigger] cur.contains(e[i]) by {
            if i < e.len() - 1 {
                assert(e[i] == prev[i]);
                assert(pp.contains(prev[i]));
                let j = choose|j: int| 0 <= j < pp.len() && pp[j] == prev[i];
                if !(e.last().1 is Null || e.last().1 is Obj) {
                    assert(cur == pp.push(e.last()));
                    assert(cur[j] == pp[j]);
                } else {
                    assert(cur == pp);
                }
            } else {
                assert(cur == pp.push(e.last()));
                assert(cur[pp.len() as int] == e[i]);
            }
        }
        assert forall|j: int| 0 <= j < cur.len() implies {
            let x = #[trigger] cur[j];
            e.contains(x) && !(x.1 is Null) && !(x.1 is Obj)
        } by {
            if !(e.last().1 is Null || e.last().1 is Obj) {
                assert(cur == pp.push(e.last()));
                if j < pp.len() {
                    assert(cur[j] == pp[j]);
                    let k = choose|k: int| 0 <= k < prev.len() && prev[k] == pp[j];
                    assert(e[k] == prev[k]);
                } else {
                    assert(cur[j] == e[e.len() - 1]);
                }
            } else {
                assert(cur == pp);
                let k = choose|k: int| 0 <= k < prev.len() && prev[k] == pp[j];
                assert(e[k] == prev[k]);
            }
        }
    }
}

} // verus!
