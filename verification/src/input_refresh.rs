//! Which input previews of which storyboard cards wait to be reloaded: all
//! of a card's, or those of some of its inputs.

use vstd::prelude::*;
use crate::id_map::IdMap;
use crate::screenplay::strings_view;
use crate::text::{chars_of, string_of, trim, trim_vec};

verus! {

/// What waits to be reloaded for a card.
#[derive(Debug)]
pub enum PendingInputRefresh {
    /// Every input preview.
    All,
    /// The previews of these inputs.
    Keys(Vec<String>),
}

/// The value of a pending refresh.
pub enum RefreshV {
    All,
    Keys(Set<Seq<char>>),
}

impl View for PendingInputRefresh {
    type V = RefreshV;

    open spec fn view(&self) -> RefreshV {
        match self {
            PendingInputRefresh::All => RefreshV::All,
            PendingInputRefresh::Keys(k) => RefreshV::Keys(strings_view(k@).to_set()),
        }
    }
}

/// The refreshes waiting, by card.
#[derive(Debug)]
pub struct InputRefreshQueue {
    pub pending: IdMap<PendingInputRefresh>,
}

/// The trimmed keys of a list that are not blank.
pub open spec fn named_keys(keys: Seq<String>) -> Set<Seq<char>> {
    Set::new(|k: Seq<char>| k.len() > 0 && exists|i: int| 0 <= i < keys.len() && trim(keys[i]@) == k)
}

/// The refreshes after some of a card's inputs (or, with no list, all of
/// them) are asked for: a list without a non-blank key asks nothing, and a
/// card waiting for all its previews keeps waiting for all.
pub open spec fn scheduled(before: Map<u128, RefreshV>, card: u128, keys: Option<Seq<String>>) -> Map<u128, RefreshV> {
    match keys {
        None => before.insert(card, RefreshV::All),
        Some(list) => {
            let named = named_keys(list);
            if named.is_empty() {
                before
            } else if before.dom().contains(card) && before[card] is All {
                before
            } else {
                let existing = if before.dom().contains(card) {
                    before[card]->Keys_0
                } else {
                    Set::empty()
                };
                before.insert(card, RefreshV::Keys(existing.union(named)))
            }
        },
    }
}

impl InputRefreshQueue {
    /// No refresh waiting.
    pub fn new() -> (r: Self)
        ensures
            r.pending@ == Map::<u128, RefreshV>::empty(),
    {
        InputRefreshQueue { pending: IdMap::new() }
    }

    /// `schedule_storyboard_input_refresh`; see `scheduled`.
    pub fn schedule_storyboard_input_refresh(&mut self, card_id: u128, keys: Option<Vec<String>>)
        ensures
            final(self).pending@ == scheduled(old(self).pending@, card_id, match keys {
                Some(l) => Some(l@),
                None => None,
            }),
    {
        let list = match keys {
            None => {
                self.pending.insert(card_id, PendingInputRefresh::All);
                return;
            },
            Some(l) => l,
        };
        let ghost lv = list@;
        let mut filtered: Vec<String> = Vec::new();
        let mut i: usize = 0;
        while i < list.len()
            invariant
                lv == list@,
                i <= list@.len(),
                forall|k: Seq<char>| #[trigger] strings_view(filtered@).to_set().contains(k) <==> (k.len() > 0 && exists|j: int|
                    0 <= j < i && trim(lv[j]@) == k),
            decreases list@.len() - i,
        {
            let t = trim_vec(chars_of(list[i].as_str()).as_slice());
            let ghost before = strings_view(filtered@);
            if t.len() > 0 {
                let s = string_of(t.as_slice());
                filtered.push(s);
                proof {
                    assert(strings_view(filtered@) =~= before.push(t@));
                    crate::sorted::lemma_to_set_push(before, t@);
                }
            }
            proof {
                assert forall|k: Seq<char>| #[trigger] strings_view(filtered@).to_set().contains(k) <==> (k.len() > 0 && exists|j: int|
                    0 <= j < i + 1 && trim(lv[j]@) == k) by {
                    if k.len() > 0 && (exists|j: int| 0 <= j < i + 1 && trim(lv[j]@) == k) {
                        let j = choose|j: int| 0 <= j < i + 1 && trim(lv[j]@) == k;
                        if j < i {
                        } else {
                            assert(t@ == k);
                        }
                    }
                }
            }
            i = i + 1;
        }
        let ghost named = named_keys(lv);
        assert(strings_view(filtered@).to_set() =~= named);
        if filtered.len() == 0 {
            proof {
                assert(strings_view(filtered@) =~= Seq::<Seq<char>>::empty());
                assert(named =~= Set::<Seq<char>>::empty());
            }
            return;
        }
        proof {
            assert(named.contains(strings_view(filtered@)[0]));
        }
        let current = self.pending.remove(card_id);
        let ghost before_map = self.pending@;
        match current {
            Some(PendingInputRefresh::All) => {
                self.pending.insert(card_id, PendingInputRefresh::All);
                proof {
                    assert(self.pending@ =~= old(self).pending@);
                }
            },
            Some(PendingInputRefresh::Keys(existing)) => {
                let ghost ev = strings_view(existing@);
                let mut merged = existing;
                let mut j: usize = 0;
                while j < filtered.len()
                    invariant
                        j <= filtered@.len(),
                        strings_view(merged@).to_set() == ev.to_set().union(strings_view(filtered@.subrange(0, j as int)).to_set()),
                    decreases filtered@.len() - j,
                {
                    let ghost m0 = strings_view(merged@);
                    merged.push(filtered[j].clone());
                    proof {
                        assert(strings_view(merged@) =~= m0.push(filtered@[j as int]@));
                        crate::sorted::lemma_to_set_push(m0, filtered@[j as int]@);
                        let pre = strings_view(filtered@.subrange(0, j as int));
                        assert(strings_view(filtered@.subrange(0, j + 1)) =~= pre.push(filtered@[j as int]@));
                        crate::sorted::lemma_to_set_push(pre, filtered@[j as int]@);
                    }
                    j = j + 1;
                }
                assert(filtered@.subrange(0, j as int) =~= filtered@);
                self.pending.insert(card_id, PendingInputRefresh::Keys(merged));
                proof {
                    assert(self.pending@ =~= scheduled(old(self).pending@, card_id, Some(lv)));
                }
            },
            None => {
                let ghost fv = strings_view(filtered@).to_set();
                self.pending.insert(card_id, PendingInputRefresh::Keys(filtered));
                proof {
                    assert(fv =~= Set::<Seq<char>>::empty().union(named));
                    assert(self.pending@ =~= scheduled(old(self).pending@, card_id, Some(lv)));
                }
            },
        }
    }

    /// `take_storyboard_input_refresh`: what waits for a card, which no
    /// longer waits.
    pub fn take_storyboard_input_refresh(&mut self, card_id: u128) -> (r: Option<PendingInputRefresh>)
        ensures
            final(self).pending@ == old(self).pending@.remove(card_id),
            match r {
                Some(p) => old(self).pending@.dom().contains(card_id) && p@ == old(self).pending@[card_id],
                None => !old(self).pending@.dom().contains(card_id),
            },
    {
        self.pending.remove(card_id)
    }
}

} // verus!
