//! Matching a file that ComfyUI wrote to the storyboard job it belongs to,
//! and taking it into the job's card.

use vstd::prelude::*;
use crate::board::Storyboard;
use crate::ids::{uuid_string, uuid_text};
use crate::storyboard::{StoryboardCard, StoryboardWorkflowOutputKind};
use crate::text::{
    chars_eq, chars_of, contains, contains_exec, lower, lower_vec, starts_with, trim, trim_vec,
};

verus! {

/// What is known of a queued storyboard job when an output file appears:
/// its card, its output prefix, the file name part of the lower-cased
/// prefix (as the platform's path syntax gives it), and whether the file is
/// the one last taken from it.
#[derive(Debug)]
pub struct OutputJob {
    pub card_id: u128,
    pub prefix: String,
    pub prefix_file_name: Option<String>,
    pub already_imported: bool,
}

/// `s.starts_with(pat)` on characters.
fn starts_with_exec(s: &Vec<char>, pat: &Vec<char>) -> (r: bool)
    ensures
        r == starts_with(s@, pat@),
{
    if pat.len() > s.len() {
        return false;
    }
    let mut i: usize = 0;
    while i < pat.len()
        invariant
            pat@.len() <= s@.len(),
            i <= pat@.len(),
            forall|k: int| 0 <= k < i ==> s@[k] == pat@[k],
        decreases pat@.len() - i,
    {
        if s[i] != pat[i] {
            return false;
        }
        i = i + 1;
    }
    assert(s@.subrange(0, pat@.len() as int) =~= pat@);
    true
}

/// The first eight characters of a card's id as text.
pub open spec fn card_short_id(card_id: u128) -> Seq<char> {
    uuid_text(card_id).subrange(0, 8)
}

/// A job claims a file (its name lower-cased): the name starts with the
/// job's trimmed, lower-cased prefix, or with the prefix's file name part,
/// or holds the first eight characters of the card's id.
pub open spec fn job_claims(job: OutputJob, name: Seq<char>) -> bool {
    let p = lower(trim(job.prefix@));
    let by_prefix = p.len() > 0 && (starts_with(name, p) || match job.prefix_file_name {
        Some(f) => f@.len() > 0 && starts_with(name, lower(f@)),
        None => false,
    });
    by_prefix || contains(name, lower(card_short_id(job.card_id)))
}

/// The card a file belongs to, going through the jobs in order: none as
/// soon as a job already took this file, else the card of the first job
/// that claims it.
pub open spec fn output_card(jobs: Seq<OutputJob>, name: Seq<char>) -> Option<u128>
    decreases jobs.len(),
{
    if jobs.len() == 0 {
        None
    } else if jobs[0].already_imported {
        None
    } else if job_claims(jobs[0], name) {
        Some(jobs[0].card_id)
    } else {
        output_card(jobs.drop_first(), name)
    }
}

/// Whether a job claims a lower-cased file name; see `job_claims`.
fn job_claims_exec(job: &OutputJob, name: &Vec<char>) -> (r: bool)
    ensures
        r == job_claims(*job, name@),
{
    reveal(job_claims);
    let p = lower_vec(trim_vec(chars_of(job.prefix.as_str()).as_slice()).as_slice());
    if p.len() > 0 {
        if starts_with_exec(name, &p) {
            return true;
        }
        if let Some(f) = &job.prefix_file_name {
            let fc = chars_of(f.as_str());
            if fc.len() > 0 {
                let fl = lower_vec(fc.as_slice());
                if starts_with_exec(name, &fl) {
                    return true;
                }
            }
        }
    }
    let id = chars_of(uuid_string(job.card_id).as_str());
    let mut short: Vec<char> = Vec::new();
    let mut i: usize = 0;
    while i < 8
        invariant
            id@ == uuid_text(job.card_id),
            id@.len() == 36,
            i <= 8,
            short@ == id@.subrange(0, i as int),
        decreases 8 - i,
    {
        short.push(id[i]);
        i = i + 1;
        assert(short@ =~= id@.subrange(0, i as int));
    }
    let sl = lower_vec(short.as_slice());
    contains_exec(name.as_slice(), sl.as_slice())
}

/// The card whose job a
/// new output file (its file name) belongs to; see `output_card`.
pub fn match_output_to_card(file_name: &str, jobs: &Vec<OutputJob>) -> (r: Option<u128>)
    ensures
        r == output_card(jobs@, lower(file_name@)),
{
    let name = lower_vec(chars_of(file_name).as_slice());
    let n = jobs.len();
    let mut i: usize = 0;
    assert(jobs@.subrange(0, n as int) =~= jobs@);
    while i < n
        invariant
            n == jobs@.len(),
            i <= n,
            name@ == lower(file_name@),
            output_card(jobs@, name@) == output_card(jobs@.subrange(i as int, n as int), name@),
        decreases n - i,
    {
        let ghost rest = jobs@.subrange(i as int, n as int);
        assert(rest[0] == jobs@[i as int]);
        assert(rest.drop_first() =~= jobs@.subrange(i + 1, n as int));
        let job = &jobs[i];
        if job.already_imported {
            return None;
        }
        if job_claims_exec(job, &name) {
            return Some(job.card_id);
        }
        i = i + 1;
    }
    None
}

/// What taking an output file into a card did.
#[derive(Clone, Copy, Debug, PartialEq, Eq, Structural)]
pub struct OutputImport {
    /// The card's position.
    pub index: usize,
    /// The card's reference changed to the file (its preview reloads).
    pub reference_changed: bool,
    /// The storyboard is saved at once (an image workflow's new reference).
    pub save_now: bool,
}

/// The index of the first card with id `id`.
pub open spec fn card_index(cards: Seq<StoryboardCard>, id: u128) -> Option<int>
    decreases cards.len(),
{
    if cards.len() == 0 {
        None
    } else {
        match card_index(cards.drop_last(), id) {
            Some(i) => Some(i),
            None => if cards.last().id == id {
                Some(cards.len() - 1)
            } else {
                None
            },
        }
    }
}

/// The cards with the first card of the id given a status; unchanged when
/// no card has the id.
pub open spec fn with_status(cards: Seq<StoryboardCard>, id: u128, status: String) -> Seq<StoryboardCard> {
    match card_index(cards, id) {
        Some(i) => cards.update(i, StoryboardCard { workflow_status: Some(status), ..cards[i] }),
        None => cards,
    }
}

/// A card as an output import leaves it: the import status; and, when the
/// file is new to it, the file as reference and no preview or workflow
/// error.
pub open spec fn imported_card(after: StoryboardCard, before: StoryboardCard, dest: Seq<char>, stamp: Seq<char>) -> bool {
    let changed = before.reference_path@ != dest;
    &&& after.workflow_status matches Some(s) && s@ == "Importing result from ComfyUI… ("@ + stamp + ")"@
    &&& after.reference_path@ == dest
    &&& if changed {
        after.preview_error is None && after.workflow_error is None
    } else {
        after.preview_error == before.preview_error && after.workflow_error == before.workflow_error
    }
    &&& after.id == before.id
    &&& after.title == before.title
    &&& after.description == before.description
    &&& after.duration_seconds == before.duration_seconds
    &&& after.workflow_id == before.workflow_id
    &&& after.video_settings == before.video_settings
    &&& after.output_kind == before.output_kind
    &&& after.workflow_inputs == before.workflow_inputs
    &&& after.workflow_input_errors == before.workflow_input_errors
}

/// The first card with an id.
fn find_card(cards: &Vec<StoryboardCard>, id: u128) -> (r: Option<usize>)
    ensures
        match r {
            Some(i) => card_index(cards@, id) == Some(i as int) && i < cards@.len(),
            None => card_index(cards@, id) is None,
        },
{
    let mut i: usize = 0;
    while i < cards.len()
        invariant
            i <= cards@.len(),
            card_index(cards@.subrange(0, i as int), id) is None,
        decreases cards@.len() - i,
    {
        assert(cards@.subrange(0, i + 1).drop_last() =~= cards@.subrange(0, i as int));
        if cards[i].id == id {
            proof {
                lemma_card_index_prefix(cards@, id, i + 1);
            }
            return Some(i);
        }
        i = i + 1;
    }
    assert(cards@.subrange(0, i as int) =~= cards@);
    None
}

proof fn lemma_card_index_prefix(cards: Seq<StoryboardCard>, id: u128, k: int)
    requires
        0 <= k <= cards.len(),
        card_index(cards.subrange(0, k), id) is Some,
    ensures
        card_index(cards, id) == card_index(cards.subrange(0, k), id),
    decreases cards.len() - k,
{
    if k < cards.len() {
        assert(cards.subrange(0, k + 1).drop_last() =~= cards.subrange(0, k));
        lemma_card_index_prefix(cards, id, k + 1);
    } else {
        assert(cards.subrange(0, k) =~= cards);
    }
}

impl Storyboard {
    /// Takes an output file into its card:
    /// the first card with the id gets the import status (at `stamp`) and,
    /// when the file is new to it, the file as reference with its errors
    /// cleared (see `imported_card`); an image workflow's card has the
    /// storyboard saved at once. Nothing changes when no card has the id.
    pub fn storyboard_begin_output_import(&mut self, card_id: u128, dest: &str, stamp: &str) -> (r: Option<OutputImport>)
        ensures
            final(self).workflows == old(self).workflows,
            final(self).selected == old(self).selected,
            final(self).cards@.len() == old(self).cards@.len(),
            match card_index(old(self).cards@, card_id) {
                Some(i) => {
                    let before = old(self).cards@[i];
                    let changed = before.reference_path@ != dest@;
                    &&& r == Some(OutputImport {
                        index: i as usize,
                        reference_changed: changed,
                        save_now: changed && (before.output_kind == StoryboardWorkflowOutputKind::Image
                            || before.output_kind == StoryboardWorkflowOutputKind::ImageAndVideo),
                    })
                    &&& imported_card(final(self).cards@[i], before, dest@, stamp@)
                    &&& forall|j: int| 0 <= j < old(self).cards@.len() && j != i ==> #[trigger] final(self).cards@[j] == old(self).cards@[j]
                },
                None => r is None && final(self).cards@ == old(self).cards@,
            },
    {
        let idx = match find_card(&self.cards, card_id) {
            Some(i) => i,
            None => {
                return None;
            },
        };
        let mut card = self.cards.remove(idx);
        let ghost before = card;
        card.workflow_status = Some(crate::text::cat3("Importing result from ComfyUI… (", stamp, ")"));
        let changed = !chars_eq(chars_of(card.reference_path.as_str()).as_slice(), chars_of(dest).as_slice());
        if changed {
            card.reference_path = String::from_str(dest);
            card.preview_error = None;
            card.workflow_error = None;
        }
        let save_now = changed && (card.output_kind == StoryboardWorkflowOutputKind::Image || card.output_kind
            == StoryboardWorkflowOutputKind::ImageAndVideo);
        self.cards.insert(idx, card);
        Some(OutputImport { index: idx, reference_changed: changed, save_now })
    }

    /// `set_storyboard_status`: the first card with the id gets the status;
    /// every other card, and everything else, stays as it was. Nothing changes
    /// when no card has the id.
    pub fn set_storyboard_status(&mut self, card_id: u128, status: String)
        ensures
            final(self).workflows == old(self).workflows,
            final(self).selected == old(self).selected,
            final(self).cards@ == with_status(old(self).cards@, card_id, status),
    {
        if let Some(idx) = find_card(&self.cards, card_id) {
            let mut card = self.cards.remove(idx);
            card.workflow_status = Some(status);
            self.cards.insert(idx, card);
            proof {
                let i = idx as int;
                assert(self.cards@ =~= old(self).cards@.update(
                    i,
                    StoryboardCard { workflow_status: Some(status), ..old(self).cards@[i] },
                ));
            }
        }
    }

    /// The status of a card whose output import is done, at `stamp`; nothing
    /// changes for an index past the cards.
    pub fn storyboard_finish_output_import(&mut self, index: usize, stamp: &str)
        ensures
            final(self).workflows == old(self).workflows,
            final(self).selected == old(self).selected,
            final(self).cards@.len() == old(self).cards@.len(),
            index < old(self).cards@.len() ==> {
                let before = old(self).cards@[index as int];
                let after = final(self).cards@[index as int];
                &&& after.workflow_status matches Some(s) && s@ == "Updated from ComfyUI ("@ + stamp@ + ")"@
                &&& after.id == before.id
                &&& after.title == before.title
                &&& after.description == before.description
                &&& after.reference_path == before.reference_path
                &&& after.duration_seconds == before.duration_seconds
                &&& after.preview_error == before.preview_error
                &&& after.workflow_id == before.workflow_id
                &&& after.workflow_error == before.workflow_error
                &&& after.video_settings == before.video_settings
                &&& after.output_kind == before.output_kind
                &&& after.workflow_inputs == before.workflow_inputs
                &&& after.workflow_input_errors == before.workflow_input_errors
            },
            forall|j: int| 0 <= j < old(self).cards@.len() && j != index ==> #[trigger] final(self).cards@[j] == old(self).cards@[j],
    {
        if index < self.cards.len() {
            let mut card = self.cards.remove(index);
            card.workflow_status = Some(crate::text::cat3("Updated from ComfyUI (", stamp, ")"));
            self.cards.insert(index, card);
        }
    }
}

} // verus!
