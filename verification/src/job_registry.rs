//! The storyboard's record of its queued ComfyUI jobs: the prompt id of each
//! card's job, which card each prompt belongs to, and the prompts the editor
//! has heard of.

use vstd::prelude::*;
use crate::board::Storyboard;
use crate::id_map::IdMap;
use crate::keyed_map::KeyedMap;
use crate::comfy_output::with_status;
use crate::storyboard::StoryboardCard;

verus! {

/// The jobs of the storyboard's cards: for each card with a job, the
/// prompt id the server gave it (none once it finished or when the server
/// named none); for each running prompt, its card; and the prompts seen.
#[derive(Debug)]
pub struct StoryboardJobRegistry {
    pub jobs: IdMap<Option<String>>,
    pub prompt_to_card: KeyedMap<u128>,
    pub known_prompts: KeyedMap<()>,
}

/// Whether a card with id `c` is among the cards.
pub open spec fn has_card(cards: Seq<StoryboardCard>, c: u128) -> bool {
    exists|j: int| 0 <= j < cards.len() && #[trigger] cards[j].id == c
}

/// A card's job is dropped when the card is gone.
pub open spec fn job_dropped(jobs: Map<u128, Option<String>>, cards: Seq<StoryboardCard>, c: u128) -> bool {
    jobs.dom().contains(c) && !has_card(cards, c)
}

/// A prompt is dropped with a job that is dropped.
pub open spec fn prompt_dropped(jobs: Map<u128, Option<String>>, cards: Seq<StoryboardCard>, p: Seq<char>) -> bool {
    exists|c: u128| #[trigger] job_dropped(jobs, cards, c) && (jobs[c] matches Some(s) && s@ == p)
}

/// Among the jobs of the cards at `ids`, one has prompt `p`.
pub open spec fn prompt_of_some(jobs: Map<u128, Option<String>>, ids: Seq<u128>, p: Seq<char>) -> bool {
    exists|j: int| 0 <= j < ids.len() && jobs.dom().contains(#[trigger] ids[j]) && (jobs[ids[j]] matches Some(s) && s@ == p)
}

/// A stored job that is kept: its card is among the cards.
pub open spec fn kept_job(cards: Seq<StoryboardCard>, e: (u128, Option<String>)) -> bool {
    has_card(cards, e.0)
}

/// Among the kept stored jobs, one has prompt `p`.
pub open spec fn stored_prompt(stored: Seq<(u128, Option<String>)>, cards: Seq<StoryboardCard>, p: Seq<char>) -> bool {
    exists|j: int| 0 <= j < stored.len() && kept_job(cards, #[trigger] stored[j]) && (stored[j].1 matches Some(s) && s@ == p)
}

/// Whether a card with the id is among the cards.
fn has_card_exec(cards: &Vec<StoryboardCard>, c: u128) -> (r: bool)
    ensures
        r == has_card(cards@, c),
{
    let mut i: usize = 0;
    while i < cards.len()
        invariant
            i <= cards@.len(),
            forall|j: int| 0 <= j < i ==> #[trigger] cards@[j].id != c,
        decreases cards@.len() - i,
    {
        if cards[i].id == c {
            return true;
        }
        i = i + 1;
    }
    false
}

impl StoryboardJobRegistry {
    /// Every prompt linked to a card is the prompt of that card's job, and a
    /// prompt the editor has seen.
    pub open spec fn links_consistent(&self) -> bool {
        forall|p: Seq<char>| #[trigger] self.prompt_to_card@.dom().contains(p) ==> {
            &&& self.jobs@.dom().contains(self.prompt_to_card@[p])
            &&& self.jobs@[self.prompt_to_card@[p]] matches Some(s) && s@ == p
            &&& self.known_prompts@.dom().contains(p)
        }
    }

    /// No jobs, links or known prompts.
    pub fn new() -> (r: Self)
        ensures
            r.jobs@ == Map::<u128, Option<String>>::empty(),
            r.prompt_to_card@ == Map::<Seq<char>, u128>::empty(),
            r.known_prompts@ == Map::<Seq<char>, ()>::empty(),
            r.links_consistent(),
    {
        StoryboardJobRegistry { jobs: IdMap::new(), prompt_to_card: KeyedMap::new(), known_prompts: KeyedMap::new() }
    }

    /// `remove_storyboard_job`: the card's job leaves; when it had a prompt,
    /// the prompt's link and its place among the known prompts go too.
    pub fn remove_storyboard_job(&mut self, card_id: u128)
        requires
            old(self).links_consistent(),
        ensures
            final(self).links_consistent(),
            forall|p: Seq<char>| #[trigger] final(self).prompt_to_card@.dom().contains(p) ==> final(self).prompt_to_card@[p] != card_id,
            final(self).jobs@ == old(self).jobs@.remove(card_id),
            match old(self).jobs@.get(card_id) {
                Some(Some(p)) => {
                    &&& final(self).prompt_to_card@ == old(self).prompt_to_card@.remove(p@)
                    &&& final(self).known_prompts@ == old(self).known_prompts@.remove(p@)
                },
                _ => {
                    &&& final(self).prompt_to_card@ == old(self).prompt_to_card@
                    &&& final(self).known_prompts@ == old(self).known_prompts@
                },
            },
    {
        if let Some(job) = self.jobs.remove(card_id) {
            if let Some(prompt_id) = job {
                self.prompt_to_card.remove(prompt_id.as_str());
                self.known_prompts.remove(prompt_id.as_str());
            }
        }
    }

    /// Records the job of a card queued anew: the link
    /// of the card's earlier prompt goes; the card's job gets the new prompt,
    /// which becomes known and linked to the card.
    pub fn record_storyboard_job(&mut self, card_id: u128, prompt_id: Option<String>)
        requires
            old(self).links_consistent(),
        ensures
            final(self).links_consistent(),
            final(self).jobs@ == old(self).jobs@.insert(card_id, prompt_id),
            ({
                let unlinked = match old(self).jobs@.get(card_id) {
                    Some(Some(prev)) => old(self).prompt_to_card@.remove(prev@),
                    _ => old(self).prompt_to_card@,
                };
                final(self).prompt_to_card@ == match prompt_id {
                    Some(p) => unlinked.insert(p@, card_id),
                    None => unlinked,
                }
            }),
            final(self).known_prompts@ == match prompt_id {
                Some(p) => old(self).known_prompts@.insert(p@, ()),
                None => old(self).known_prompts@,
            },
    {
        let prev: Option<String> = match self.jobs.get(card_id) {
            Some(Some(pp)) => Some(pp.clone()),
            _ => None,
        };
        if let Some(pp) = prev {
            self.prompt_to_card.remove(pp.as_str());
        }
        let ghost mid = self.prompt_to_card@;
        self.jobs.insert(card_id, prompt_id.clone());
        if let Some(p) = prompt_id {
            self.known_prompts.insert(p.clone(), ());
            self.prompt_to_card.insert(p, card_id);
        }
        proof {
            assert forall|q: Seq<char>| #[trigger] self.prompt_to_card@.dom().contains(q) implies {
                &&& self.jobs@.dom().contains(self.prompt_to_card@[q])
                &&& self.jobs@[self.prompt_to_card@[q]] matches Some(s) && s@ == q
                &&& self.known_prompts@.dom().contains(q)
            } by {
                if !(prompt_id matches Some(p) && p@ == q) {
                    assert(mid.dom().contains(q));
                    assert(old(self).prompt_to_card@.dom().contains(q));
                    let c = old(self).prompt_to_card@[q];
                    assert(self.prompt_to_card@[q] == c);
                    if c == card_id {
                        assert(old(self).jobs@[card_id] matches Some(s) && s@ == q);
                        assert(false);
                    }
                }
            }
        }
    }

    /// Records the end of a prompt's execution: its link
    /// goes, and its card's job, when the card still has one, keeps no
    /// prompt.
    pub fn finish_storyboard_prompt(&mut self, prompt_id: &str)
        requires
            old(self).links_consistent(),
        ensures
            final(self).links_consistent(),
            final(self).known_prompts@ == old(self).known_prompts@,
            match old(self).prompt_to_card@.get(prompt_id@) {
                Some(c) => {
                    &&& final(self).prompt_to_card@ == old(self).prompt_to_card@.remove(prompt_id@)
                    &&& final(self).jobs@ == if old(self).jobs@.dom().contains(c) {
                        old(self).jobs@.insert(c, None)
                    } else {
                        old(self).jobs@
                    }
                },
                None => {
                    &&& final(self).prompt_to_card@ == old(self).prompt_to_card@
                    &&& final(self).jobs@ == old(self).jobs@
                },
            },
    {
        let card: Option<u128> = match self.prompt_to_card.get(prompt_id) {
            Some(c) => Some(*c),
            None => None,
        };
        if let Some(c) = card {
            self.prompt_to_card.remove(prompt_id);
            if self.jobs.contains_key(c) {
                self.jobs.insert(c, None);
            }
            proof {
                assert forall|q: Seq<char>| #[trigger] self.prompt_to_card@.dom().contains(q) implies {
                    &&& self.jobs@.dom().contains(self.prompt_to_card@[q])
                    &&& self.jobs@[self.prompt_to_card@[q]] matches Some(s) && s@ == q
                    &&& self.known_prompts@.dom().contains(q)
                } by {
                    assert(old(self).prompt_to_card@.dom().contains(q));
                    let d = old(self).prompt_to_card@[q];
                    if d == c {
                        assert(old(self).jobs@[c] matches Some(s) && s@ == q);
                        assert(old(self).jobs@[c] matches Some(s) && s@ == prompt_id@);
                        assert(false);
                    }
                }
            }
        }
    }

    /// `cleanup_storyboard_jobs`: the jobs of cards that are gone leave, with
    /// the links and known places of their prompts; everything else stays.
    pub fn cleanup_storyboard_jobs(&mut self, cards: &Vec<StoryboardCard>)
        requires
            old(self).links_consistent(),
        ensures
            final(self).links_consistent(),
            forall|p: Seq<char>| #[trigger] final(self).prompt_to_card@.dom().contains(p) ==> has_card(cards@, final(self).prompt_to_card@[p]),
            final(self).jobs@ == old(self).jobs@.restrict(Set::new(|c: u128| has_card(cards@, c))),
            final(self).prompt_to_card@ == old(self).prompt_to_card@.restrict(
                Set::new(|p: Seq<char>| !prompt_dropped(old(self).jobs@, cards@, p)),
            ),
            final(self).known_prompts@ == old(self).known_prompts@.restrict(
                Set::new(|p: Seq<char>| !prompt_dropped(old(self).jobs@, cards@, p)),
            ),
    {
        let ghost jobs0 = self.jobs@;
        let ghost ptc0 = self.prompt_to_card@;
        let ghost known0 = self.known_prompts@;
        let n = self.jobs.len();
        let mut rm: Vec<u128> = Vec::new();
        let mut i: usize = 0;
        while i < n
            invariant
                n == self.jobs.members().len(),
                i <= n,
                self.jobs@ == jobs0,
                forall|k: u128| #[trigger] jobs0.dom().contains(k) <==> exists|x: int| 0 <= x < self.jobs.members().len() && self.jobs.members()[x].0 == k,
                forall|k: int| 0 <= k < rm@.len() ==> #[trigger] job_dropped(jobs0, cards@, rm@[k]),
                forall|x: int| 0 <= x < i && job_dropped(jobs0, cards@, #[trigger] self.jobs.members()[x].0) ==> rm@.contains(self.jobs.members()[x].0),
            decreases n - i,
        {
            let (id, _) = self.jobs.member_at(i);
            let ghost rm_b = rm@;
            if !has_card_exec(cards, id) {
                rm.push(id);
                assert(rm@[rm@.len() - 1] == id);
            }
            proof {
                assert forall|x: int| 0 <= x < i + 1 && job_dropped(jobs0, cards@, #[trigger] self.jobs.members()[x].0) implies rm@.contains(self.jobs.members()[x].0) by {
                    if x < i {
                        assert(rm_b.contains(self.jobs.members()[x].0));
                        let y = choose|y: int| 0 <= y < rm_b.len() && rm_b[y] == self.jobs.members()[x].0;
                        assert(rm@[y] == rm_b[y]);
                    } else {
                        assert(rm@[rm@.len() - 1] == id);
                    }
                }
            }
            i = i + 1;
        }
        assert forall|c: u128| job_dropped(jobs0, cards@, c) <==> #[trigger] rm@.contains(c) by {
            if job_dropped(jobs0, cards@, c) {
                let x = choose|x: int| 0 <= x < self.jobs.members().len() && self.jobs.members()[x].0 == c;
                assert(job_dropped(jobs0, cards@, self.jobs.members()[x].0));
            }
            if rm@.contains(c) {
                let k = choose|k: int| 0 <= k < rm@.len() && rm@[k] == c;
                assert(job_dropped(jobs0, cards@, rm@[k]));
            }
        }
        let mut k: usize = 0;
        while k < rm.len()
            invariant
                k <= rm@.len(),
                self.links_consistent(),
                forall|c: u128| job_dropped(jobs0, cards@, c) <==> #[trigger] rm@.contains(c),
                self.jobs@ == jobs0.restrict(Set::new(|c: u128| !rm@.subrange(0, k as int).contains(c))),
                self.prompt_to_card@ == ptc0.restrict(Set::new(|p: Seq<char>| !prompt_of_some(jobs0, rm@.subrange(0, k as int), p))),
                self.known_prompts@ == known0.restrict(Set::new(|p: Seq<char>| !prompt_of_some(jobs0, rm@.subrange(0, k as int), p))),
            decreases rm@.len() - k,
        {
            let c = rm[k];
            let ghost before = rm@.subrange(0, k as int);
            let ghost after = rm@.subrange(0, k + 1);
            let ghost jobs_b = self.jobs@;
            let ghost ptc_b = self.prompt_to_card@;
            let ghost known_b = self.known_prompts@;
            self.remove_storyboard_job(c);
            proof {
                assert(after =~= before.push(c));
                assert forall|d: u128| #[trigger] after.contains(d) <==> before.contains(d) || d == c by {
                    if after.contains(d) {
                        let x = choose|x: int| 0 <= x < after.len() && after[x] == d;
                        if x < before.len() {
                            assert(before[x] == d);
                        }
                    }
                    if before.contains(d) {
                        let x = choose|x: int| 0 <= x < before.len() && before[x] == d;
                        assert(after[x] == d);
                    }
                    if d == c {
                        assert(after[k as int] == d);
                    }
                }
                assert(self.jobs@ =~= jobs0.restrict(Set::new(|d: u128| !after.contains(d))));
                assert forall|p: Seq<char>| prompt_of_some(jobs0, after, p) <==> #[trigger] prompt_of_some(jobs0, before, p)
                    || (jobs0.dom().contains(c) && (jobs0[c] matches Some(s) && s@ == p)) by {
                    if prompt_of_some(jobs0, after, p) {
                        let x = choose|x: int| 0 <= x < after.len() && jobs0.dom().contains(#[trigger] after[x]) && (jobs0[after[x]] matches Some(s) && s@ == p);
                        if x < before.len() {
                            assert(before[x] == after[x]);
                        }
                    }
                    if prompt_of_some(jobs0, before, p) {
                        let x = choose|x: int| 0 <= x < before.len() && jobs0.dom().contains(#[trigger] before[x]) && (jobs0[before[x]] matches Some(s) && s@ == p);
                        assert(after[x] == before[x]);
                    }
                    if jobs0.dom().contains(c) && (jobs0[c] matches Some(s) && s@ == p) {
                        assert(after[k as int] == c);
                    }
                }
                if before.contains(c) {
                    assert(!jobs_b.dom().contains(c));
                    assert forall|p: Seq<char>| prompt_of_some(jobs0, after, p) <==> #[trigger] prompt_of_some(jobs0, before, p) by {
                        if jobs0.dom().contains(c) && (jobs0[c] matches Some(s) && s@ == p) {
                            let x = choose|x: int| 0 <= x < before.len() && before[x] == c;
                            assert(jobs0.dom().contains(before[x]));
                        }
                    }
                } else {
                    assert(jobs0.dom().contains(c)) by {
                        assert(rm@[k as int] == c);
                        assert(rm@.contains(c));
                    }
                    assert(jobs_b.dom().contains(c) && jobs_b[c] == jobs0[c]);
                }
                assert(self.prompt_to_card@ =~= ptc0.restrict(Set::new(|p: Seq<char>| !prompt_of_some(jobs0, after, p))));
                assert(self.known_prompts@ =~= known0.restrict(Set::new(|p: Seq<char>| !prompt_of_some(jobs0, after, p))));
            }
            k = k + 1;
        }
        proof {
            let all = rm@.subrange(0, rm@.len() as int);
            assert(all =~= rm@);
            assert forall|p: Seq<char>| prompt_of_some(jobs0, rm@, p) <==> #[trigger] prompt_dropped(jobs0, cards@, p) by {
                if prompt_of_some(jobs0, rm@, p) {
                    let x = choose|x: int| 0 <= x < rm@.len() && jobs0.dom().contains(#[trigger] rm@[x]) && (jobs0[rm@[x]] matches Some(s) && s@ == p);
                    assert(rm@.contains(rm@[x]));
                    assert(job_dropped(jobs0, cards@, rm@[x]));
                }
                if prompt_dropped(jobs0, cards@, p) {
                    let c = choose|c: u128| #[trigger] job_dropped(jobs0, cards@, c) && (jobs0[c] matches Some(s) && s@ == p);
                    assert(rm@.contains(c));
                    let x = choose|x: int| 0 <= x < rm@.len() && rm@[x] == c;
                    assert(jobs0.dom().contains(rm@[x]));
                }
            }
            assert(self.jobs@ =~= jobs0.restrict(Set::new(|c: u128| has_card(cards@, c))));
            assert(self.prompt_to_card@ =~= ptc0.restrict(Set::new(|p: Seq<char>| !prompt_dropped(jobs0, cards@, p))));
            assert(self.known_prompts@ =~= known0.restrict(Set::new(|p: Seq<char>| !prompt_dropped(jobs0, cards@, p))));
        }
    }

    /// Takes back the jobs stored with a saved storyboard: everything
    /// earlier is cleared; each
    /// stored job of a card that is among the cards comes back, with its
    /// prompt known and linked to a card whose job has it (which of several
    /// such cards is left open, as the stored order is).
    pub fn restore_storyboard_jobs(&mut self, stored: &Vec<(u128, Option<String>)>, cards: &Vec<StoryboardCard>)
        requires
            crate::id_map::ids_distinct(stored@),
        ensures
            final(self).links_consistent(),
            forall|c: u128| #[trigger] final(self).jobs@.dom().contains(c) <==> exists|j: int|
                0 <= j < stored@.len() && kept_job(cards@, stored@[j]) && stored@[j].0 == c,
            forall|j: int| 0 <= j < stored@.len() && kept_job(cards@, #[trigger] stored@[j]) ==> final(self).jobs@[stored@[j].0] == stored@[j].1,
            forall|p: Seq<char>| #[trigger] final(self).prompt_to_card@.dom().contains(p) <==> stored_prompt(stored@, cards@, p),
            forall|p: Seq<char>| #[trigger] final(self).known_prompts@.dom().contains(p) <==> stored_prompt(stored@, cards@, p),
    {
        self.clear_all_storyboard_jobs();
        let mut j: usize = 0;
        while j < stored.len()
            invariant
                j <= stored@.len(),
                crate::id_map::ids_distinct(stored@),
                self.links_consistent(),
                forall|c: u128| #[trigger] self.jobs@.dom().contains(c) <==> exists|x: int|
                    0 <= x < j && kept_job(cards@, stored@[x]) && stored@[x].0 == c,
                forall|x: int| 0 <= x < j && kept_job(cards@, #[trigger] stored@[x]) ==> self.jobs@[stored@[x].0] == stored@[x].1,
                forall|p: Seq<char>| #[trigger] self.prompt_to_card@.dom().contains(p) <==> stored_prompt(stored@.subrange(0, j as int), cards@, p),
                forall|p: Seq<char>| #[trigger] self.known_prompts@.dom().contains(p) <==> stored_prompt(stored@.subrange(0, j as int), cards@, p),
            decreases stored@.len() - j,
        {
            let c = stored[j].0;
            let ghost jobs_b = self.jobs@;
            let ghost ptc_b = self.prompt_to_card@;
            let ghost pre = stored@.subrange(0, j as int);
            let ghost post = stored@.subrange(0, j + 1);
            if has_card_exec(cards, c) {
                assert(!jobs_b.dom().contains(c)) by {
                    if jobs_b.dom().contains(c) {
                        let x = choose|x: int| 0 <= x < j && kept_job(cards@, stored@[x]) && stored@[x].0 == c;
                        assert(stored@[x].0 == stored@[j as int].0);
                    }
                }
                if let Some(p) = &stored[j].1 {
                    self.prompt_to_card.insert(p.clone(), c);
                    self.known_prompts.insert(p.clone(), ());
                }
                self.jobs.insert(c, stored[j].1.clone());
                proof {
                    assert forall|q: Seq<char>| #[trigger] self.prompt_to_card@.dom().contains(q) implies {
                        &&& self.jobs@.dom().contains(self.prompt_to_card@[q])
                        &&& self.jobs@[self.prompt_to_card@[q]] matches Some(s) && s@ == q
                        &&& self.known_prompts@.dom().contains(q)
                    } by {
                        if !(stored@[j as int].1 matches Some(p) && p@ == q) {
                            assert(ptc_b.dom().contains(q));
                            assert(jobs_b.dom().contains(ptc_b[q]));
                        }
                    }
                }
            }
            proof {
                assert(post.drop_last() =~= pre);
                assert forall|x: int| 0 <= x < j + 1 && kept_job(cards@, #[trigger] stored@[x]) implies self.jobs@[stored@[x].0] == stored@[x].1 by {
                    if x < j {
                        assert(stored@[x].0 != stored@[j as int].0);
                    }
                }
                assert forall|d: u128| #[trigger] self.jobs@.dom().contains(d) <==> exists|x: int|
                    0 <= x < j + 1 && kept_job(cards@, stored@[x]) && stored@[x].0 == d by {
                    if self.jobs@.dom().contains(d) && d != c {
                        assert(jobs_b.dom().contains(d));
                    }
                }
                assert forall|q: Seq<char>| stored_prompt(post, cards@, q) <==> stored_prompt(pre, cards@, q)
                    || (kept_job(cards@, stored@[j as int]) && (stored@[j as int].1 matches Some(s) && s@ == q)) by {
                    if stored_prompt(post, cards@, q) {
                        let x = choose|x: int| 0 <= x < post.len() && kept_job(cards@, #[trigger] post[x]) && (post[x].1 matches Some(s) && s@ == q);
                        if x < pre.len() {
                            assert(pre[x] == post[x]);
                        }
                    }
                    if stored_prompt(pre, cards@, q) {
                        let x = choose|x: int| 0 <= x < pre.len() && kept_job(cards@, #[trigger] pre[x]) && (pre[x].1 matches Some(s) && s@ == q);
                        assert(post[x] == pre[x]);
                    }
                    if kept_job(cards@, stored@[j as int]) && (stored@[j as int].1 matches Some(s) && s@ == q) {
                        assert(post[j as int] == stored@[j as int]);
                    }
                }
            }
            j = j + 1;
        }
        assert(stored@.subrange(0, stored@.len() as int) =~= stored@);
    }

    /// `clear_all_storyboard_jobs`.
    pub fn clear_all_storyboard_jobs(&mut self)
        ensures
            final(self).jobs@ == Map::<u128, Option<String>>::empty(),
            final(self).prompt_to_card@ == Map::<Seq<char>, u128>::empty(),
            final(self).known_prompts@ == Map::<Seq<char>, ()>::empty(),
            final(self).links_consistent(),
    {
        self.jobs.clear();
        self.prompt_to_card.clear();
        self.known_prompts.clear();
    }
}

impl Storyboard {
    /// `set_storyboard_status_for_prompt`: the card the prompt is linked to
    /// gets the status; nothing changes for a prompt with no link.
    pub fn set_storyboard_status_for_prompt(&mut self, jobs: &StoryboardJobRegistry, prompt_id: &str, status: String)
        ensures
            final(self).workflows == old(self).workflows,
            final(self).selected == old(self).selected,
            final(self).cards@ == match jobs.prompt_to_card@.get(prompt_id@) {
                Some(c) => with_status(old(self).cards@, c, status),
                None => old(self).cards@,
            },
    {
        let card: Option<u128> = match jobs.prompt_to_card.get(prompt_id) {
            Some(c) => Some(*c),
            None => None,
        };
        if let Some(c) = card {
            self.set_storyboard_status(c, status);
        }
    }
}

} // verus!
