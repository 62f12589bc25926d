//! The storyboard: its cards in order, the selected card, and the workflows
//! cards can use; adding, removing, moving and duplicating cards.

use vstd::prelude::*;
use crate::draft::DEFAULT_SHOT_SECONDS_BITS;
use crate::keyed_map::KeyedMap;
use crate::preset_scan::opt_settings;
use crate::storyboard::{
    inputs_equal, old_values_of, preset_specs, spec_keys, sync_storyboard_inputs,
    sync_storyboard_inputs_with_transfer, synced_inputs, transfers, StoryboardCard,
    StoryboardVideoSettings, StoryboardWorkflowOutputKind, StoryboardWorkflowPreset,
};
use crate::text::nat_decimal;
use crate::workflow_input::{inputs_eq, InputValue, StoryboardInputValue};
use crate::workflow_preset::{view_specs, InputSpecView};

verus! {

/// The storyboard of a project.
#[derive(Debug)]
pub struct Storyboard {
    pub cards: Vec<StoryboardCard>,
    pub selected: Option<usize>,
    pub workflows: Vec<StoryboardWorkflowPreset>,
}

/// The index of the first workflow with id `id`.
pub open spec fn first_workflow(ws: Seq<StoryboardWorkflowPreset>, id: u128) -> Option<int>
    decreases ws.len(),
{
    if ws.len() == 0 {
        None
    } else {
        match first_workflow(ws.drop_last(), id) {
            Some(i) => Some(i),
            None => if ws.last().id == id {
                Some(ws.len() - 1)
            } else {
                None
            },
        }
    }
}

/// The values a workflow's inputs start with: each input with a default,
/// keyed by its map key (a later input replaces an earlier one).
pub open spec fn defaults_map(specs: Seq<InputSpecView>) -> Map<Seq<char>, InputValue>
    decreases specs.len(),
{
    if specs.len() == 0 {
        Map::empty()
    } else {
        match specs.last().default_value {
            Some(v) => defaults_map(specs.drop_last()).insert(specs.last().map_key, v),
            None => defaults_map(specs.drop_last()),
        }
    }
}

/// The inputs a card has after a sync with its workflow, from `base`.
pub open spec fn sync_result(specs: Seq<InputSpecView>, base: Map<Seq<char>, InputValue>) -> Map<Seq<char>, InputValue> {
    let synced = synced_inputs(specs, base);
    if !inputs_eq(synced, base) {
        synced
    } else {
        base
    }
}

/// The inputs of a new card: the first workflow's defaults, synced with it;
/// none when there is no workflow.
pub open spec fn new_card_inputs(ws: Seq<StoryboardWorkflowPreset>) -> Map<Seq<char>, InputValue> {
    if ws.len() == 0 {
        Map::empty()
    } else {
        sync_result(view_specs(ws[0].input_specs@), defaults_map(view_specs(ws[0].input_specs@)))
    }
}

/// The view of optional video settings, by reference.
pub open spec fn settings_of(o: &Option<StoryboardVideoSettings>) -> Option<(Seq<char>, Seq<char>, Seq<char>)> {
    opt_settings(*o)
}

/// A card as a new card of a storyboard with `n` cards and workflows `ws`
/// is made, with id `id`.
pub open spec fn is_new_card(c: StoryboardCard, id: u128, n: nat, ws: Seq<StoryboardWorkflowPreset>) -> bool {
    &&& c.id == id
    &&& c.title@ == "Shot "@ + nat_decimal(n + 1)
    &&& c.description@ == Seq::<char>::empty()
    &&& c.reference_path@ == Seq::<char>::empty()
    &&& c.duration_seconds == DEFAULT_SHOT_SECONDS_BITS
    &&& c.preview_error is None
    &&& c.workflow_id == if ws.len() > 0 {
        Some(ws[0].id)
    } else {
        None
    }
    &&& c.workflow_error is None
    &&& c.workflow_status is None
    &&& settings_of(&c.video_settings) == if ws.len() > 0 {
        settings_of(&ws[0].video_defaults)
    } else {
        None
    }
    &&& c.output_kind == if ws.len() > 0 {
        ws[0].output_kind
    } else {
        StoryboardWorkflowOutputKind::Image
    }
    &&& c.workflow_inputs@ == new_card_inputs(ws)
    &&& c.workflow_input_errors@ == Map::<Seq<char>, Seq<char>>::empty()
}

/// The inputs of a duplicated card: carried over within its workflow when
/// the workflow is known, else none.
pub open spec fn duplicate_inputs(inputs: Map<Seq<char>, InputValue>, ws: Seq<StoryboardWorkflowPreset>, which: Option<int>) -> Map<Seq<char>, InputValue> {
    match which {
        Some(i) => {
            let specs = view_specs(ws[i].input_specs@);
            sync_result(specs, inputs).union_prefer_right(
                transfers(specs, specs, old_values_of(Some(&ws[i]), inputs)),
            )
        },
        None => Map::empty(),
    }
}

/// A copy of video settings.
pub fn clone_settings(s: &Option<StoryboardVideoSettings>) -> (r: Option<StoryboardVideoSettings>)
    ensures
        settings_of(&r) == settings_of(s),
{
    match s {
        Some(v) => Some(StoryboardVideoSettings {
            filename_prefix: v.filename_prefix.clone(),
            format: v.format.clone(),
            codec: v.codec.clone(),
        }),
        None => None,
    }
}

/// A copy of a card's input values.
pub fn copy_inputs(m: &KeyedMap<StoryboardInputValue>) -> (r: KeyedMap<StoryboardInputValue>)
    ensures
        r@ == m@,
{
    let n = m.len();
    let ghost members = m.members();
    let mut out: KeyedMap<StoryboardInputValue> = KeyedMap::new();
    let mut i: usize = 0;
    while i < n
        invariant
            n == members.len(),
            members == m.members(),
            i <= n,
            out@ == crate::keyed_map::map_of(members.subrange(0, i as int)),
        decreases n - i,
    {
        let (k, v) = m.member_at(i);
        proof {
            assert(members.subrange(0, i + 1).drop_last() =~= members.subrange(0, i as int));
        }
        out.insert(k.clone(), v.deep_clone());
        i = i + 1;
    }
    let _ = m.len();
    assert(members.subrange(0, n as int) =~= members);
    out
}

impl Storyboard {
    /// The first workflow with id `id`.
    pub fn find_workflow(&self, id: u128) -> (r: Option<&StoryboardWorkflowPreset>)
        ensures
            match first_workflow(self.workflows@, id) {
                Some(i) => r matches Some(p) && *p == self.workflows@[i],
                None => r is None,
            },
    {
        let mut i: usize = 0;
        while i < self.workflows.len()
            invariant
                i <= self.workflows@.len(),
                first_workflow(self.workflows@.subrange(0, i as int), id) is None,
            decreases self.workflows@.len() - i,
        {
            proof {
                assert(self.workflows@.subrange(0, i + 1).drop_last() =~= self.workflows@.subrange(0, i as int));
            }
            if self.workflows[i].id == id {
                proof {
                    lemma_first_workflow_prefix(self.workflows@, id, i + 1);
                }
                return Some(&self.workflows[i]);
            }
            i = i + 1;
        }
        assert(self.workflows@.subrange(0, self.workflows@.len() as int) =~= self.workflows@);
        None
    }

    /// `storyboard_workflow_input_defaults`: the starting values of the
    /// inputs of the first workflow with id `workflow_id`.
    pub fn storyboard_workflow_input_defaults(&self, workflow_id: u128) -> (r: Option<KeyedMap<StoryboardInputValue>>)
        ensures
            match first_workflow(self.workflows@, workflow_id) {
                Some(i) => r matches Some(m) && m@ == defaults_map(view_specs(self.workflows@[i].input_specs@)),
                None => r is None,
            },
    {
        match self.find_workflow(workflow_id) {
            Some(p) => Some(workflow_defaults(p)),
            None => None,
        }
    }

    /// `storyboard_add_card`, with the new card's id given: a card named
    /// after its position, using the first workflow (its video settings,
    /// outputs and input defaults), appended and selected.
    pub fn storyboard_add_card_with_id(&mut self, card_id: u128) -> (r: usize)
        requires
            old(self).cards@.len() + 1 <= usize::MAX,
        ensures
            r == old(self).cards@.len(),
            final(self).cards@.len() == old(self).cards@.len() + 1,
            forall|i: int| 0 <= i < r ==> #[trigger] final(self).cards@[i] == old(self).cards@[i],
            is_new_card(final(self).cards@[r as int], card_id, r as nat, old(self).workflows@),
            final(self).selected == Some(r),
            final(self).workflows == old(self).workflows,
    {
        let n = self.cards.len();
        let title = crate::text::cat("Shot ", crate::text::u64_decimal_string((n + 1) as u64).as_str());
        let (workflow_id, video_settings, output_kind, inputs) = if self.workflows.len() > 0 {
            let first = &self.workflows[0];
            (Some(first.id), clone_settings(&first.video_defaults), first.output_kind, workflow_defaults(first))
        } else {
            (None, None, StoryboardWorkflowOutputKind::Image, KeyedMap::new())
        };
        let mut card = StoryboardCard {
            id: card_id,
            title,
            description: String::new(),
            reference_path: String::new(),
            duration_seconds: DEFAULT_SHOT_SECONDS_BITS,
            preview_error: None,
            workflow_id,
            workflow_error: None,
            workflow_status: None,
            video_settings,
            output_kind,
            workflow_inputs: inputs,
            workflow_input_errors: KeyedMap::new(),
        };
        if self.workflows.len() > 0 {
            let _ = sync_storyboard_inputs(&mut card, Some(&self.workflows[0]));
        } else {
            let _ = sync_storyboard_inputs(&mut card, None);
        }
        self.cards.push(card);
        self.selected = Some(n);
        n
    }

    /// `storyboard_add_card`: a new card with a fresh random id.
    pub fn storyboard_add_card(&mut self) -> (r: usize)
        requires
            old(self).cards@.len() + 1 <= usize::MAX,
        ensures
            r == old(self).cards@.len(),
            final(self).cards@.len() == old(self).cards@.len() + 1,
            forall|i: int| 0 <= i < r ==> #[trigger] final(self).cards@[i] == old(self).cards@[i],
            exists|id: u128| #[trigger] is_new_card(final(self).cards@[r as int], id, r as nat, old(self).workflows@),
            final(self).selected == Some(r),
    {
        let id = crate::ids::random_uuid();
        self.storyboard_add_card_with_id(id)
    }

    /// `storyboard_remove_selected`: removes the selected card and selects
    /// the one now in its place (or the last one); returns the removed
    /// card's id, so that what belongs to it can go too.
    pub fn storyboard_remove_selected(&mut self) -> (r: Option<u128>)
        ensures
            match old(self).selected {
                Some(idx) => if idx < old(self).cards@.len() {
                    &&& r == Some(old(self).cards@[idx as int].id)
                    &&& final(self).cards@ == old(self).cards@.remove(idx as int)
                    &&& final(self).selected == if final(self).cards@.len() == 0 {
                        None
                    } else if idx >= final(self).cards@.len() {
                        Some((final(self).cards@.len() - 1) as usize)
                    } else {
                        Some(idx)
                    }
                } else {
                    r is None && final(self).cards@ == old(self).cards@ && final(self).selected == old(self).selected
                },
                None => r is None && final(self).cards@ == old(self).cards@ && final(self).selected == old(self).selected,
            },
            final(self).workflows == old(self).workflows,
    {
        if let Some(idx) = self.selected {
            if idx < self.cards.len() {
                let card_id = self.cards[idx].id;
                let _ = self.cards.remove(idx);
                let len = self.cards.len();
                if len == 0 {
                    self.selected = None;
                } else if idx >= len {
                    self.selected = Some(len - 1);
                } else {
                    self.selected = Some(idx);
                }
                return Some(card_id);
            }
        }
        None
    }

    /// `storyboard_move_selected`: moves the selected card `delta` places,
    /// when it stays on the board, and keeps it selected.
    pub fn storyboard_move_selected(&mut self, delta: isize)
        requires
            old(self).selected matches Some(i) ==> i <= isize::MAX && isize::MIN <= i + delta <= isize::MAX,
        ensures
            match old(self).selected {
                Some(idx) => {
                    let target = idx + delta;
                    if idx < old(self).cards@.len() && 0 <= target < old(self).cards@.len() {
                        &&& final(self).cards@ == old(self).cards@.update(idx as int, old(self).cards@[target]).update(
                            target,
                            old(self).cards@[idx as int],
                        )
                        &&& final(self).selected == Some(target as usize)
                    } else {
                        final(self).cards@ == old(self).cards@ && final(self).selected == old(self).selected
                    }
                },
                None => final(self).cards@ == old(self).cards@ && final(self).selected == old(self).selected,
            },
            final(self).workflows == old(self).workflows,
    {
        if let Some(idx) = self.selected {
            let len = self.cards.len();
            if len == 0 {
                return;
            }
            let new_idx = idx as isize + delta;
            if new_idx < 0 {
                return;
            }
            let t = new_idx as usize;
            if t >= len || idx >= len {
                return;
            }
            let ghost before = self.cards@;
            if idx < t {
                let b = self.cards.remove(t);
                let a = self.cards.remove(idx);
                self.cards.insert(idx, b);
                self.cards.insert(t, a);
            } else if t < idx {
                let a = self.cards.remove(idx);
                let b = self.cards.remove(t);
                self.cards.insert(t, a);
                self.cards.insert(idx, b);
            }
            assert(self.cards@ =~= before.update(idx as int, before[t as int]).update(t as int, before[idx as int]));
            self.selected = Some(t);
        }
    }
}

/// The workflow a card's id names, when the storyboard has it.
pub open spec fn workflow_of(ws: Seq<StoryboardWorkflowPreset>, wid: Option<u128>) -> Option<int> {
    match wid {
        Some(w) => first_workflow(ws, w),
        None => None,
    }
}

/// A card as a duplicate of `c` is made, with id `id`.
pub open spec fn is_duplicate(d: StoryboardCard, c: StoryboardCard, id: u128, ws: Seq<StoryboardWorkflowPreset>) -> bool {
    &&& d.id == id
    &&& d.title@ == c.title@ + " (Copy)"@
    &&& d.description@ == c.description@
    &&& d.reference_path@ == c.reference_path@
    &&& d.duration_seconds == c.duration_seconds
    &&& d.preview_error is None
    &&& d.workflow_id == c.workflow_id
    &&& d.workflow_error is None
    &&& crate::screenplay::opt_string_view(d.workflow_status) == crate::screenplay::opt_string_view(c.workflow_status)
    &&& settings_of(&d.video_settings) == settings_of(&c.video_settings)
    &&& d.output_kind == c.output_kind
    &&& d.workflow_inputs@ == duplicate_inputs(c.workflow_inputs@, ws, workflow_of(ws, c.workflow_id))
    &&& d.workflow_input_errors@ == Map::<Seq<char>, Seq<char>>::empty()
}

/// A copy of an optional string.
fn clone_opt_string(o: &Option<String>) -> (r: Option<String>)
    ensures
        crate::screenplay::opt_string_view(r) == crate::screenplay::opt_string_view(*o),
{
    match o {
        Some(s) => Some(s.clone()),
        None => None,
    }
}

impl Storyboard {
    /// `storyboard_duplicate_selected`, with the copy's id given: a copy of
    /// the selected card, titled as a copy, without errors, its values
    /// carried over within its workflow, placed after it and selected.
    pub fn storyboard_duplicate_selected_with_id(&mut self, new_id: u128) -> (r: Option<usize>)
        requires
            old(self).cards@.len() + 1 <= usize::MAX,
        ensures
            final(self).workflows == old(self).workflows,
            match old(self).selected {
                Some(idx) => if idx < old(self).cards@.len() {
                    &&& r == Some((idx + 1) as usize)
                    &&& final(self).cards@.len() == old(self).cards@.len() + 1
                    &&& forall|i: int| 0 <= i <= idx ==> #[trigger] final(self).cards@[i] == old(self).cards@[i]
                    &&& forall|i: int| idx + 1 < i < final(self).cards@.len() ==> #[trigger] final(self).cards@[i]
                        == old(self).cards@[i - 1]
                    &&& is_duplicate(final(self).cards@[idx + 1], old(self).cards@[idx as int], new_id, old(self).workflows@)
                    &&& final(self).selected == Some((idx + 1) as usize)
                } else {
                    r is None && final(self).cards@ == old(self).cards@ && final(self).selected == old(self).selected
                },
                None => r is None && final(self).cards@ == old(self).cards@ && final(self).selected == old(self).selected,
            },
    {
        let idx = match self.selected {
            Some(i) => i,
            None => {
                return None;
            },
        };
        if idx >= self.cards.len() {
            return None;
        }
        let c = &self.cards[idx];
        let mut dup = StoryboardCard {
            id: new_id,
            title: crate::text::cat(c.title.as_str(), " (Copy)"),
            description: c.description.clone(),
            reference_path: c.reference_path.clone(),
            duration_seconds: c.duration_seconds,
            preview_error: None,
            workflow_id: c.workflow_id,
            workflow_error: None,
            workflow_status: clone_opt_string(&c.workflow_status),
            video_settings: clone_settings(&c.video_settings),
            output_kind: c.output_kind,
            workflow_inputs: copy_inputs(&c.workflow_inputs),
            workflow_input_errors: KeyedMap::new(),
        };
        let preset = match c.workflow_id {
            Some(w) => self.find_workflow(w),
            None => None,
        };
        match preset {
            Some(p) => {
                let _ = sync_storyboard_inputs_with_transfer(&mut dup, p, Some(p));
            },
            None => {
                let _ = sync_storyboard_inputs(&mut dup, None);
            },
        }
        let at = idx + 1;
        self.cards.insert(at, dup);
        self.selected = Some(at);
        Some(at)
    }

    /// `storyboard_duplicate_selected`: the copy gets a fresh random id.
    pub fn storyboard_duplicate_selected(&mut self) -> (r: Option<usize>)
        requires
            old(self).cards@.len() + 1 <= usize::MAX,
        ensures
            final(self).workflows == old(self).workflows,
            match old(self).selected {
                Some(idx) => if idx < old(self).cards@.len() {
                    &&& r == Some((idx + 1) as usize)
                    &&& final(self).cards@.len() == old(self).cards@.len() + 1
                    &&& forall|i: int| 0 <= i <= idx ==> #[trigger] final(self).cards@[i] == old(self).cards@[i]
                    &&& forall|i: int| idx + 1 < i < final(self).cards@.len() ==> #[trigger] final(self).cards@[i]
                        == old(self).cards@[i - 1]
                    &&& exists|id: u128| #[trigger] is_duplicate(final(self).cards@[idx + 1], old(self).cards@[idx as int], id, old(self).workflows@)
                    &&& final(self).selected == Some((idx + 1) as usize)
                } else {
                    r is None && final(self).cards@ == old(self).cards@ && final(self).selected == old(self).selected
                },
                None => r is None && final(self).cards@ == old(self).cards@ && final(self).selected == old(self).selected,
            },
    {
        let id = crate::ids::random_uuid();
        self.storyboard_duplicate_selected_with_id(id)
    }
}

/// The starting values of a workflow's inputs.
fn workflow_defaults(p: &StoryboardWorkflowPreset) -> (r: KeyedMap<StoryboardInputValue>)
    ensures
        r@ == defaults_map(view_specs(p.input_specs@)),
{
    let ghost sv = view_specs(p.input_specs@);
    let mut m: KeyedMap<StoryboardInputValue> = KeyedMap::new();
    let mut i: usize = 0;
    while i < p.input_specs.len()
        invariant
            sv == view_specs(p.input_specs@),
            i <= p.input_specs@.len(),
            m@ == defaults_map(sv.subrange(0, i as int)),
        decreases p.input_specs@.len() - i,
    {
        proof {
            assert(sv.subrange(0, i + 1).drop_last() =~= sv.subrange(0, i as int));
            assert(sv[i as int] == p.input_specs@[i as int]@);
        }
        let spec = &p.input_specs[i];
        if let Some(v) = &spec.default_value {
            m.insert(spec.map_key.clone(), v.deep_clone());
        }
        i = i + 1;
    }
    assert(sv.subrange(0, p.input_specs@.len() as int) =~= sv);
    m
}

/// A workflow found in a prefix is the first one of the whole list.
pub(crate) proof fn lemma_first_workflow_prefix(ws: Seq<StoryboardWorkflowPreset>, id: u128, k: int)
    requires
        0 <= k <= ws.len(),
        first_workflow(ws.subrange(0, k), id) is Some,
    ensures
        first_workflow(ws, id) == first_workflow(ws.subrange(0, k), id),
    decreases ws.len() - k,
{
    if k < ws.len() {
        assert(ws.subrange(0, k + 1).drop_last() =~= ws.subrange(0, k));
        lemma_first_workflow_prefix(ws, id, k + 1);
    } else {
        assert(ws.subrange(0, k) =~= ws);
    }
}


/// The index of the last workflow with id `id`: the one a map keyed by id,
/// filled from the list in order, holds.
pub open spec fn last_workflow(ws: Seq<StoryboardWorkflowPreset>, id: u128) -> Option<int>
    decreases ws.len(),
{
    if ws.len() == 0 {
        None
    } else if ws.last().id == id {
        Some(ws.len() - 1)
    } else {
        last_workflow(ws.drop_last(), id)
    }
}

/// The workflow an optional id finds in such a map.
pub open spec fn lookup_workflow(ws: Seq<StoryboardWorkflowPreset>, wid: Option<u128>) -> Option<int> {
    match wid {
        Some(w) => last_workflow(ws, w),
        None => None,
    }
}

/// The workflow a card keeps: its own when the storyboard has it, else the
/// first one (none on a storyboard without workflows).
pub open spec fn chosen_workflow(ws: Seq<StoryboardWorkflowPreset>, wid: Option<u128>) -> Option<u128> {
    if lookup_workflow(ws, wid) is Some {
        wid
    } else if ws.len() > 0 {
        Some(ws[0].id)
    } else {
        None
    }
}

/// The input specs of the workflow at an optional index.
pub open spec fn specs_at(ws: Seq<StoryboardWorkflowPreset>, at: Option<int>) -> Seq<InputSpecView> {
    match at {
        Some(i) => view_specs(ws[i].input_specs@),
        None => Seq::empty(),
    }
}

/// A card's values of the inputs of the workflow at an optional index.
pub open spec fn values_at(ws: Seq<StoryboardWorkflowPreset>, at: Option<int>, inputs: Map<Seq<char>, InputValue>) -> Map<Seq<char>, InputValue> {
    match at {
        Some(i) => inputs.restrict(spec_keys(view_specs(ws[i].input_specs@))),
        None => Map::empty(),
    }
}

/// The inputs a card has once its workflow is settled: synced with the
/// workflow it keeps, values carried over from the one it had; none without
/// a workflow.
pub open spec fn settled_inputs(ws: Seq<StoryboardWorkflowPreset>, wid: Option<u128>, inputs: Map<Seq<char>, InputValue>) -> Map<Seq<char>, InputValue> {
    match lookup_workflow(ws, chosen_workflow(ws, wid)) {
        Some(i) => {
            let specs = view_specs(ws[i].input_specs@);
            let prev = lookup_workflow(ws, wid);
            sync_result(specs, inputs).union_prefer_right(
                transfers(specs, specs_at(ws, prev), values_at(ws, prev, inputs)),
            )
        },
        None => Map::empty(),
    }
}

/// `after` is `before` with its workflow settled: the workflow it keeps, the
/// video settings of that workflow when it had to change, that workflow's
/// outputs, and its inputs synced, with no input errors.
pub open spec fn is_settled(after: StoryboardCard, before: StoryboardCard, ws: Seq<StoryboardWorkflowPreset>) -> bool {
    let keep = lookup_workflow(ws, before.workflow_id) is Some;
    let wid = chosen_workflow(ws, before.workflow_id);
    let p = lookup_workflow(ws, wid);
    &&& after.id == before.id
    &&& after.title == before.title
    &&& after.description == before.description
    &&& after.reference_path == before.reference_path
    &&& after.duration_seconds == before.duration_seconds
    &&& after.preview_error == before.preview_error
    &&& after.workflow_error == before.workflow_error
    &&& after.workflow_status == before.workflow_status
    &&& after.workflow_id == wid
    &&& settings_of(&after.video_settings) == if keep {
        settings_of(&before.video_settings)
    } else {
        match p {
            Some(i) => settings_of(&ws[i].video_defaults),
            None => None,
        }
    }
    &&& after.output_kind == match p {
        Some(i) => ws[i].output_kind,
        None => StoryboardWorkflowOutputKind::Image,
    }
    &&& after.workflow_inputs@ == settled_inputs(ws, before.workflow_id, before.workflow_inputs@)
    &&& after.workflow_input_errors@ == Map::<Seq<char>, Seq<char>>::empty()
}

/// The index of the last workflow with id `id`.
fn find_last_workflow(ws: &Vec<StoryboardWorkflowPreset>, id: u128) -> (r: Option<usize>)
    ensures
        match r {
            Some(k) => last_workflow(ws@, id) == Some(k as int),
            None => last_workflow(ws@, id) is None,
        },
        r matches Some(i) ==> i < ws@.len() && ws@[i as int].id == id,
{
    proof {
        lemma_last_workflow_at(ws@, id);
    }
    let mut j: usize = ws.len();
    assert(ws@.subrange(0, j as int) =~= ws@);
    while j > 0
        invariant
            j <= ws@.len(),
            last_workflow(ws@, id) == last_workflow(ws@.subrange(0, j as int), id),
        decreases j,
    {
        let ghost pre = ws@.subrange(0, j as int);
        assert(pre.drop_last() =~= ws@.subrange(0, j - 1));
        if ws[j - 1].id == id {
            return Some(j - 1);
        }
        j = j - 1;
    }
    None
}

/// The last workflow with an id has that id.
proof fn lemma_last_workflow_at(ws: Seq<StoryboardWorkflowPreset>, id: u128)
    ensures
        last_workflow(ws, id) matches Some(i) ==> 0 <= i < ws.len() && ws[i].id == id,
    decreases ws.len(),
{
    if ws.len() > 0 && ws.last().id != id {
        lemma_last_workflow_at(ws.drop_last(), id);
    }
}

/// Settles one card's workflow; see `is_settled`.
fn settle_card_workflow(card: &mut StoryboardCard, ws: &Vec<StoryboardWorkflowPreset>)
    ensures
        is_settled(*final(card), *old(card), ws@),
{
    let ghost before = *card;
    let prev = match card.workflow_id {
        Some(w) => find_last_workflow(ws, w),
        None => None,
    };
    if prev.is_none() {
        let default = if ws.len() > 0 {
            Some(ws[0].id)
        } else {
            None
        };
        card.workflow_id = default;
        card.video_settings = match default {
            Some(d) => match find_last_workflow(ws, d) {
                Some(i) => clone_settings(&ws[i].video_defaults),
                None => None,
            },
            None => None,
        };
    }
    let at = match card.workflow_id {
        Some(w) => find_last_workflow(ws, w),
        None => None,
    };
    card.output_kind = match at {
        Some(i) => ws[i].output_kind,
        None => StoryboardWorkflowOutputKind::Image,
    };
    match at {
        Some(i) => {
            let prev_preset = match prev {
                Some(j) => {
                    assert(lookup_workflow(ws@, before.workflow_id) == Some(j as int));
                    Some(&ws[j])
                },
                None => {
                    assert(lookup_workflow(ws@, before.workflow_id) is None);
                    None
                },
            };
            assert(preset_specs(prev_preset) == specs_at(ws@, lookup_workflow(ws@, before.workflow_id)));
            assert(old_values_of(prev_preset, card.workflow_inputs@) == values_at(ws@, lookup_workflow(ws@, before.workflow_id), card.workflow_inputs@));
            let _ = sync_storyboard_inputs_with_transfer(card, &ws[i], prev_preset);
        },
        None => {
            let _ = sync_storyboard_inputs(card, None);
        },
    }
}

impl Storyboard {
    /// `ensure_storyboard_card_workflow_selection`: every card is settled on a
    /// workflow of the storyboard (see `is_settled`); the order of the cards,
    /// the selection and the workflows stay.
    pub fn ensure_storyboard_card_workflow_selection(&mut self)
        ensures
            final(self).cards@.len() == old(self).cards@.len(),
            forall|i: int| 0 <= i < old(self).cards@.len() ==> is_settled(#[trigger] final(self).cards@[i], old(self).cards@[i], old(self).workflows@),
            final(self).selected == old(self).selected,
            final(self).workflows == old(self).workflows,
    {
        let ghost orig = self.cards@;
        let ghost sel = self.selected;
        let ghost wsg = self.workflows;
        let n = self.cards.len();
        let mut i: usize = 0;
        while i < n
            invariant
                n == orig.len(),
                self.cards@.len() == n,
                i <= n,
                forall|j: int| 0 <= j < i ==> is_settled(#[trigger] self.cards@[j], orig[j], self.workflows@),
                forall|j: int| i <= j < n ==> #[trigger] self.cards@[j] == orig[j],
                self.selected == sel,
                self.workflows == wsg,
            decreases n - i,
        {
            let mut card = self.cards.remove(i);
            settle_card_workflow(&mut card, &self.workflows);
            self.cards.insert(i, card);
            i = i + 1;
        }
    }
}


/// A card left without its deleted workflow: no reference, errors, status,
/// inputs, video settings or workflow, image outputs; the rest stays.
pub open spec fn is_detached(after: StoryboardCard, before: StoryboardCard) -> bool {
    &&& after.id == before.id
    &&& after.title == before.title
    &&& after.description == before.description
    &&& after.duration_seconds == before.duration_seconds
    &&& after.reference_path@ == Seq::<char>::empty()
    &&& after.preview_error is None
    &&& after.workflow_error is None
    &&& after.workflow_status is None
    &&& after.workflow_inputs@ == Map::<Seq<char>, InputValue>::empty()
    &&& after.workflow_input_errors@ == Map::<Seq<char>, Seq<char>>::empty()
    &&& after.video_settings is None
    &&& after.output_kind == StoryboardWorkflowOutputKind::Image
    &&& after.workflow_id is None
}

/// The cards that use workflow `id`, each with its reference path, in order.
pub open spec fn cards_using(cards: Seq<StoryboardCard>, id: u128) -> Seq<(u128, Seq<char>)>
    decreases cards.len(),
{
    if cards.len() == 0 {
        Seq::empty()
    } else {
        let before = cards_using(cards.drop_last(), id);
        if cards.last().workflow_id == Some(id) {
            before.push((cards.last().id, cards.last().reference_path@))
        } else {
            before
        }
    }
}

impl Storyboard {
    /// Whether a workflow may be removed: the first workflow with the id,
    /// unless there is none or it is built in.
    pub fn storyboard_workflow_removal_check(&self, workflow_id: u128) -> (r: Result<usize, String>)
        ensures
            match first_workflow(self.workflows@, workflow_id) {
                None => r matches Err(m) && m@ == "Workflow not found."@,
                Some(i) => if self.workflows@[i].builtin {
                    r matches Err(m) && m@ == "Built-in workflows cannot be deleted."@
                } else {
                    r == Ok::<usize, String>(i as usize)
                },
            },
    {
        let mut i: usize = 0;
        while i < self.workflows.len()
            invariant
                i <= self.workflows@.len(),
                first_workflow(self.workflows@.subrange(0, i as int), workflow_id) is None,
            decreases self.workflows@.len() - i,
        {
            assert(self.workflows@.subrange(0, i + 1).drop_last() =~= self.workflows@.subrange(0, i as int));
            if self.workflows[i].id == workflow_id {
                proof {
                    lemma_first_workflow_prefix(self.workflows@, workflow_id, i + 1);
                }
                if self.workflows[i].builtin {
                    return Err(String::from_str("Built-in workflows cannot be deleted."));
                }
                return Ok(i);
            }
            i = i + 1;
        }
        assert(self.workflows@.subrange(0, i as int) =~= self.workflows@);
        Err(String::from_str("Workflow not found."))
    }

    /// Detaches a removed workflow from the storyboard: every
    /// card that used it is detached from it (see `is_detached`), the others
    /// stay; returns those cards' ids with the reference paths they had, so
    /// that the references the editor made and the cards' jobs can go too.
    pub fn storyboard_detach_workflow(&mut self, workflow_id: u128) -> (r: Vec<(u128, String)>)
        ensures
            final(self).cards@.len() == old(self).cards@.len(),
            forall|i: int| 0 <= i < old(self).cards@.len() ==> if old(self).cards@[i].workflow_id == Some(workflow_id) {
                is_detached(#[trigger] final(self).cards@[i], old(self).cards@[i])
            } else {
                final(self).cards@[i] == old(self).cards@[i]
            },
            r@.map_values(|p: (u128, String)| (p.0, p.1@)) == cards_using(old(self).cards@, workflow_id),
            final(self).selected == old(self).selected,
            final(self).workflows == old(self).workflows,
    {
        let ghost orig = self.cards@;
        let ghost sel = self.selected;
        let ghost wsg = self.workflows;
        let n = self.cards.len();
        let mut out: Vec<(u128, String)> = Vec::new();
        let mut i: usize = 0;
        while i < n
            invariant
                n == orig.len(),
                self.cards@.len() == n,
                i <= n,
                forall|j: int| 0 <= j < i ==> if orig[j].workflow_id == Some(workflow_id) {
                    is_detached(#[trigger] self.cards@[j], orig[j])
                } else {
                    self.cards@[j] == orig[j]
                },
                forall|j: int| i <= j < n ==> #[trigger] self.cards@[j] == orig[j],
                out@.map_values(|p: (u128, String)| (p.0, p.1@)) == cards_using(orig.subrange(0, i as int), workflow_id),
                self.selected == sel,
                self.workflows == wsg,
            decreases n - i,
        {
            proof {
                assert(orig.subrange(0, i + 1).drop_last() =~= orig.subrange(0, i as int));
            }
            if self.cards[i].workflow_id == Some(workflow_id) {
                let mut card = self.cards.remove(i);
                let ghost before_out = out@.map_values(|p: (u128, String)| (p.0, p.1@));
                let mut path = String::new();
                std::mem::swap(&mut path, &mut card.reference_path);
                let ghost pair = (card.id, path@);
                out.push((card.id, path));
                proof {
                    assert(out@.map_values(|p: (u128, String)| (p.0, p.1@)) =~= before_out.push(pair));
                }
                card.preview_error = None;
                card.workflow_error = None;
                card.workflow_status = None;
                card.workflow_inputs.clear();
                card.workflow_input_errors.clear();
                card.video_settings = None;
                card.output_kind = StoryboardWorkflowOutputKind::Image;
                card.workflow_id = None;
                self.cards.insert(i, card);
            }
            i = i + 1;
        }
        assert(orig.subrange(0, n as int) =~= orig);
        out
    }
}


impl Storyboard {
    /// Takes stored cards into the storyboard: the
    /// cards, each settled on the storyboard's workflows, and the stored
    /// selection when it points at a card, else the first card (none when
    /// there are no cards).
    pub fn storyboard_load_cards(&mut self, cards: Vec<StoryboardCard>, selected: Option<usize>)
        ensures
            final(self).cards@.len() == cards@.len(),
            forall|i: int| 0 <= i < cards@.len() ==> is_settled(#[trigger] final(self).cards@[i], cards@[i], old(self).workflows@),
            final(self).selected == if cards@.len() == 0 {
                None
            } else {
                match selected {
                    Some(i) => if i < cards@.len() {
                        Some(i)
                    } else {
                        Some(0usize)
                    },
                    None => Some(0usize),
                }
            },
            final(self).workflows == old(self).workflows,
    {
        self.cards = cards;
        self.selected = match selected {
            Some(i) => if i < self.cards.len() {
                Some(i)
            } else {
                None
            },
            None => None,
        };
        self.ensure_storyboard_card_workflow_selection();
        if self.cards.len() == 0 {
            self.selected = None;
        } else {
            match self.selected {
                Some(i) => {
                    if i >= self.cards.len() {
                        self.selected = Some(0);
                    }
                },
                None => {
                    self.selected = Some(0);
                },
            }
        }
    }
}

} // verus!
