//! The order of the storyboard's workflows: built-in ones first, then by
//! name ignoring case, equal ones as they were found.

use vstd::prelude::*;
use crate::board::{is_settled, Storyboard};
use crate::sorted::{lemma_lex_asymmetric, lemma_lex_irreflexive, lemma_lex_total, lemma_lex_transitive, lex_lt, lex_lt_exec};
use crate::storyboard::StoryboardWorkflowPreset;
use crate::text::{chars_eq, chars_of};

verus! {

/// What `str::to_lowercase` returns for a text.
pub uninterp spec fn lowercase_of(s: Seq<char>) -> Seq<char>;

/// `str::to_lowercase`. The contract names the result; it does not restate
/// Unicode's case mappings.
#[verifier::external_body]
fn to_lowercase(s: &str) -> (r: String)
    ensures
        r@ == lowercase_of(s@),
{
    s.to_lowercase()
}

/// A workflow's place in the order: built-in first, then its lower-cased
/// name, then where it was found.
pub open spec fn order_key(p: StoryboardWorkflowPreset, i: int) -> (int, Seq<char>, int) {
    (
        if p.builtin {
            0
        } else {
            1
        },
        lowercase_of(p.name@),
        i,
    )
}

/// `a` comes no later than `b`.
pub open spec fn key_le(a: (int, Seq<char>, int), b: (int, Seq<char>, int)) -> bool {
    a.0 < b.0 || (a.0 == b.0 && (lex_lt(a.1, b.1) || (a.1 == b.1 && a.2 <= b.2)))
}

/// `key_le` as a relation.
pub open spec fn key_order() -> spec_fn((int, Seq<char>, int), (int, Seq<char>, int)) -> bool {
    |a: (int, Seq<char>, int), b: (int, Seq<char>, int)| key_le(a, b)
}

/// The keys of workflows in the order they were found.
pub open spec fn keys_of(ws: Seq<StoryboardWorkflowPreset>) -> Seq<(int, Seq<char>, int)> {
    Seq::new(ws.len(), |i: int| order_key(ws[i], i))
}

/// The workflows in order: sorted by their keys.
pub open spec fn ordered_workflows(ws: Seq<StoryboardWorkflowPreset>) -> Seq<StoryboardWorkflowPreset> {
    keys_of(ws).sort_by(key_order()).map_values(|k: (int, Seq<char>, int)| ws[k.2])
}

/// `key_le` is a total order.
pub proof fn lemma_key_order_total()
    ensures
        vstd::relations::total_ordering(key_order()),
{
    let r = key_order();
    assert forall|x: (int, Seq<char>, int)| #[trigger] r(x, x) by {
        lemma_lex_irreflexive(x.1);
    }
    assert forall|x: (int, Seq<char>, int), y: (int, Seq<char>, int)| #[trigger] r(x, y) && #[trigger] r(y, x) implies x == y by {
        if x.0 == y.0 && lex_lt(x.1, y.1) {
            lemma_lex_asymmetric(x.1, y.1);
        }
    }
    assert forall|x: (int, Seq<char>, int), y: (int, Seq<char>, int), z: (int, Seq<char>, int)| #[trigger] r(x, y) && #[trigger] r(y, z) implies r(x, z) by {
        if x.0 == y.0 && y.0 == z.0 && lex_lt(x.1, y.1) && lex_lt(y.1, z.1) {
            lemma_lex_transitive(x.1, y.1, z.1);
        }
    }
    assert forall|x: (int, Seq<char>, int), y: (int, Seq<char>, int)| #[trigger] r(x, y) || #[trigger] r(y, x) by {
        if x.0 == y.0 && x.1 != y.1 {
            lemma_lex_total(x.1, y.1);
        }
    }
}

/// `refresh_storyboard_workflows`' order of the workflows found; see
/// `ordered_workflows`.
pub fn order_storyboard_workflows(presets: Vec<StoryboardWorkflowPreset>) -> (r: Vec<StoryboardWorkflowPreset>)
    ensures
        r@ == ordered_workflows(presets@),
{
    let ghost ws = presets@;
    let ghost all = keys_of(ws);
    let n = presets.len();
    let mut src = presets;
    let mut out: Vec<StoryboardWorkflowPreset> = Vec::new();
    let mut names: Vec<String> = Vec::new();
    let mut ranks: Vec<u8> = Vec::new();
    let ghost mut outk: Seq<(int, Seq<char>, int)> = Seq::empty();
    let mut i: usize = 0;
    proof {
        lemma_key_order_total();
        assert(all.subrange(0, 0) =~= outk);
    }
    while src.len() > 0
        invariant
            n == ws.len(),
            all == keys_of(ws),
            i <= n,
            src@ == ws.subrange(i as int, n as int),
            out@.len() == outk.len(),
            names@.len() == outk.len(),
            ranks@.len() == outk.len(),
            forall|j: int| 0 <= j < outk.len() ==> 0 <= (#[trigger] outk[j]).2 < i && outk[j] == all[outk[j].2] && out@[j] == ws[outk[j].2]
                && names@[j]@ == outk[j].1 && ranks@[j] as int == outk[j].0,
            vstd::relations::sorted_by(outk, key_order()),
            vstd::relations::total_ordering(key_order()),
            outk.to_multiset() == all.subrange(0, i as int).to_multiset(),
        decreases src@.len(),
    {
        let p = src.remove(0);
        assert(p == ws[i as int]);
        let lname = to_lowercase(p.name.as_str());
        let rank: u8 = if p.builtin {
            0
        } else {
            1
        };
        let ghost key = (rank as int, lname@, i as int);
        assert(key == all[i as int]);
        let lc = chars_of(lname.as_str());
        let mut j: usize = 0;
        while j < out.len() && !(rank < ranks[j] || (rank == ranks[j] && lex_lt_exec(
            lc.as_slice(),
            chars_of(names[j].as_str()).as_slice(),
        )))
            invariant
                j <= out@.len(),
                out@.len() == outk.len(),
                names@.len() == outk.len(),
                ranks@.len() == outk.len(),
                lc@ == lname@,
                forall|t: int| 0 <= t < outk.len() ==> 0 <= (#[trigger] outk[t]).2 < i && names@[t]@ == outk[t].1 && ranks@[t]
                    as int == outk[t].0,
                forall|t: int| 0 <= t < j ==> key_le(#[trigger] outk[t], key),
                key == (rank as int, lname@, i as int),
            decreases out@.len() - j,
        {
            assert(names@[j as int]@ == outk[j as int].1);
            proof {
                if outk[j as int].0 == key.0 && outk[j as int].1 != key.1 {
                    lemma_lex_total(outk[j as int].1, key.1);
                }
            }
            j = j + 1;
        }
        proof {
            if j < out@.len() {
                assert(names@[j as int]@ == outk[j as int].1);
                assert(key_le(key, outk[j as int]) && key != outk[j as int]);
            }
        }
        let ghost ok = outk;
        out.insert(j, p);
        names.insert(j, lname);
        ranks.insert(j, rank);
        proof {
            outk = ok.insert(j as int, key);
            let r = key_order();
            assert forall|a: int, b: int| 0 <= a < b < outk.len() implies #[trigger] r(outk[a], outk[b]) by {
                if b < j {
                    assert(r(ok[a], ok[b]));
                } else if b == j {
                    assert(key_le(ok[a], key));
                } else if a == j {
                    assert(r(ok[j as int], ok[b - 1]) || j as int == b - 1);
                    if j as int == b - 1 {
                        assert(key_le(key, ok[j as int]));
                    } else {
                        assert(key_le(key, ok[j as int]));
                        assert(r(key, ok[j as int]) && r(ok[j as int], ok[b - 1]));
                    }
                } else if a < j {
                    assert(r(ok[a], ok[b - 1]));
                } else {
                    assert(r(ok[a - 1], ok[b - 1]));
                }
            }
            assert forall|t: int| 0 <= t < outk.len() implies 0 <= (#[trigger] outk[t]).2 < i + 1 && outk[t] == all[outk[t].2] && out@[t]
                == ws[outk[t].2] && names@[t]@ == outk[t].1 && ranks@[t] as int == outk[t].0 by {
                if t < j {
                    assert(outk[t] == ok[t]);
                } else if t > j {
                    assert(outk[t] == ok[t - 1]);
                }
            }
            vstd::seq_lib::to_multiset_insert(ok, j as int, key);
            assert(all.subrange(0, i + 1) =~= all.subrange(0, i as int).push(all[i as int]));
            all.subrange(0, i as int).to_multiset_ensures();
        }
        i = i + 1;
        assert(src@ =~= ws.subrange(i as int, n as int));
    }
    proof {
        assert(all.subrange(0, i as int) =~= all);
        all.lemma_sort_by_ensures(key_order());
        vstd::seq_lib::lemma_sorted_unique(outk, all.sort_by(key_order()), key_order());
        assert(out@ =~= outk.map_values(|k: (int, Seq<char>, int)| ws[k.2]));
    }
    out
}

impl Storyboard {
    /// `refresh_storyboard_workflows`, once the workflow files are read: the
    /// workflows found, in order (see `ordered_workflows`), with every card
    /// settled on them.
    pub fn refresh_storyboard_workflows(&mut self, found: Vec<StoryboardWorkflowPreset>)
        ensures
            final(self).workflows@ == ordered_workflows(found@),
            final(self).cards@.len() == old(self).cards@.len(),
            forall|i: int| 0 <= i < old(self).cards@.len() ==> is_settled(#[trigger] final(self).cards@[i], old(self).cards@[i], ordered_workflows(found@)),
            final(self).selected == old(self).selected,
    {
        self.workflows = order_storyboard_workflows(found);
        self.ensure_storyboard_card_workflow_selection();
    }
}

} // verus!
