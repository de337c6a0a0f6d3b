//! The orchestrating layer's interaction states.

use vstd::prelude::*;

use vstd::multiset::Multiset;

use crate::strutil::{lemma_lex_total, lemma_lex_trans, lex_le, str_eq, str_lex_le};

verus! {

/// Which pane or selection the interactive layer is in. The orchestration
/// around it is unverified plumbing; the state space itself belongs to the
/// library so its transitions can be stated against it.
#[derive(Debug, Clone, Copy, PartialEq, Eq, Structural)]
pub enum State {
    ChampSelect,
    ModeSelect,
    RoleSelect,
    RegionSelect,
    VersionSelect,
    BuildSelect,
    HelpMenu,
    Logger,
}

impl State {
    /// The state a fresh session starts in.
    pub fn initial() -> (r: State)
        ensures
            r == State::ChampSelect,
    {
        State::ChampSelect
    }
}

/// The champion list is ordered when each name is lexicographically
/// less-or-equal every later one.
pub open spec fn names_sorted(s: Seq<(String, String)>) -> bool {
    forall|i: int, j: int| #![trigger s[i], s[j]] 0 <= i < j < s.len() ==> lex_le(s[i].0@, s[j].0@)
}

/// Sorts champion `(name, key)` pairs by name, keeping exactly the given
/// pairs: the result is ordered and holds the same multiset of pairs.
pub fn sort_champ_pairs(list: Vec<(String, String)>) -> (r: Vec<(String, String)>)
    ensures
        names_sorted(r@),
        r@.to_multiset() == list@.to_multiset(),
{
    broadcast use vstd::multiset::group_multiset_axioms;
    broadcast use vstd::seq_lib::to_multiset_contains;

    let ghost orig = list@;
    let mut rest = list;
    let mut out: Vec<(String, String)> = Vec::new();
    proof {
        assert(out@.to_multiset() =~= Multiset::<(String, String)>::empty());
        assert(out@.to_multiset().add(rest@.to_multiset()) =~= orig.to_multiset());
    }
    while rest.len() > 0
        invariant
            names_sorted(out@),
            out@.to_multiset().add(rest@.to_multiset()) == orig.to_multiset(),
        decreases rest@.len(),
    {
        let ghost rest0 = rest@;
        let pair = rest.pop().unwrap();
        let mut pos: usize = 0;
        while pos < out.len() && !str_lex_le(pair.0.as_str(), out[pos].0.as_str())
            invariant
                pos <= out@.len(),
                forall|k: int| 0 <= k < pos ==> !lex_le(pair.0@, #[trigger] out@[k].0@),
            decreases out@.len() - pos,
        {
            pos += 1;
        }
        proof {
            assert(pos == out@.len() || lex_le(pair.0@, out@[pos as int].0@));
            assert forall|k: int| 0 <= k < pos implies lex_le(#[trigger] out@[k].0@, pair.0@) by {
                lemma_lex_total(pair.0@, out@[k].0@);
            }
        }
        let ghost out0 = out@;
        out.insert(pos, pair);
        proof {
            let s = out@;
            assert(s == out0.insert(pos as int, pair));
            assert forall|i: int, j: int| #![trigger s[i], s[j]] 0 <= i < j < s.len() implies lex_le(
                s[i].0@,
                s[j].0@,
            ) by {
                if j < pos {
                    assert(s[i] == out0[i] && s[j] == out0[j]);
                } else if j == pos {
                    assert(s[i] == out0[i]);
                } else if i < pos {
                    assert(s[i] == out0[i] && s[j] == out0[j - 1]);
                } else if i == pos {
                    assert(s[j] == out0[j - 1]);
                    assert(lex_le(pair.0@, out0[pos as int].0@));
                    if j - 1 > pos {
                        lemma_lex_trans(pair.0@, out0[pos as int].0@, out0[j - 1].0@);
                    }
                } else {
                    assert(s[i] == out0[i - 1] && s[j] == out0[j - 1]);
                }
            }
            vstd::seq_lib::to_multiset_insert(out0, pos as int, pair);
            vstd::seq_lib::to_multiset_build(rest@, pair);
            assert(rest@.push(pair) =~= rest0);
            assert(out@.to_multiset().add(rest@.to_multiset()) =~= orig.to_multiset());
        }
    }
    proof {
        assert forall|a: (String, String)| rest@.to_multiset().count(a) == 0 by {
            assert(!rest@.contains(a));
        }
        assert(rest@.to_multiset() =~= Multiset::<(String, String)>::empty());
        assert(out@.to_multiset() =~= orig.to_multiset());
    }
    out
}

/// Looks a champion's name up by its key, as the first pair carrying that
/// key; `None` exactly when no pair does.
pub fn champ_name_by_key(pairs: &Vec<(String, String)>, key: &str) -> (r: Option<String>)
    ensures
        r matches Some(name) ==> exists|k: int|
            0 <= k < pairs@.len() && #[trigger] pairs@[k].0@ == key@ && pairs@[k].1@ == name@,
        r is None ==> forall|k: int| 0 <= k < pairs@.len() ==> #[trigger] pairs@[k].0@ != key@,
{
    let mut i: usize = 0;
    while i < pairs.len()
        invariant
            0 <= i <= pairs@.len(),
            forall|k: int| 0 <= k < i ==> #[trigger] pairs@[k].0@ != key@,
        decreases pairs@.len() - i,
    {
        if str_eq(pairs[i].0.as_str(), key) {
            return Some(pairs[i].1.clone());
        }
        i += 1;
    }
    None
}

} // verus!
