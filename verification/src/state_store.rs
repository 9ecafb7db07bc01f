//! The managed-state records of a game directory: one file per campaign
//! branch under `states/`, plus the legacy single `state.json`.

use vstd::prelude::*;
use crate::order::{insertion_sort, is_sorted, lemma_text_lt_laws, text_lt, text_lt_exec, ListOrder};
use crate::paths::{campaign_target_outcome, slot_file_spec, state_path_for_target};
use crate::state::{state_target, ManagedState};
use crate::text::{chars_eq, chars_of, owned, views};

verus! {

impl ListOrder for ManagedState {
    open spec fn precedes(a: Self, b: Self) -> bool {
        text_lt(state_target(a), state_target(b))
    }

    proof fn lemma_order(a: Self, b: Self, c: Self) {
        lemma_text_lt_laws(state_target(a), state_target(b), state_target(c));
        lemma_text_lt_laws(state_target(a), state_target(c), state_target(b));
        lemma_text_lt_laws(state_target(b), state_target(c), state_target(a));
    }

    fn precedes_exec(a: &Self, b: &Self) -> (r: bool) {
        text_lt_exec(
            &chars_of(a.target_path_or_first_clear().as_str()),
            &chars_of(b.target_path_or_first_clear().as_str()),
        )
    }
}

/// One `states/*.json` file: where it lies and what reading it gave (a
/// validated state, or why it could not be read).
#[derive(Debug, PartialEq, Eq)]
pub struct StateEntry {
    pub path: String,
    pub state: Result<ManagedState, String>,
}

pub open spec fn ambiguous_states_error() -> Seq<char> {
    "Managed slot states are ambiguous or do not match their filenames; no files were changed."@
}

/// The states of `entries` from `i` on, given the targets already `seen`:
/// each must lie at its branch's own file name, and no branch may have two.
pub open spec fn entries_outcome(root: Seq<char>, entries: Seq<StateEntry>, i: int, seen: Seq<Seq<char>>) -> Result<
    Seq<ManagedState>,
    Seq<char>,
>
    decreases entries.len() - i,
{
    if i < 0 || i >= entries.len() {
        Ok(Seq::empty())
    } else {
        match entries[i].state {
            Err(e) => Err(e@),
            Ok(s) => match campaign_target_outcome(state_target(s)) {
                Err(e) => Err(e),
                Ok(_) => if slot_file_spec(root, "states"@, state_target(s)) != entries[i].path@ || seen.contains(
                    state_target(s),
                ) {
                    Err(ambiguous_states_error())
                } else {
                    match entries_outcome(root, entries, i + 1, seen.push(state_target(s))) {
                        Err(e) => Err(e),
                        Ok(rest) => Ok(seq![s] + rest),
                    }
                },
            },
        }
    }
}

/// Some state in `ss` is for branch `target`.
pub open spec fn has_target(ss: Seq<ManagedState>, target: Seq<char>) -> bool {
    exists|j: int| 0 <= j < ss.len() && state_target(#[trigger] ss[j]) == target
}

/// `read_managed_states` before sorting: the per-branch states, then the
/// legacy state unless its branch already has one.
pub open spec fn managed_states_outcome(
    root: Seq<char>,
    entries: Seq<StateEntry>,
    legacy: Result<Option<ManagedState>, String>,
) -> Result<Seq<ManagedState>, Seq<char>> {
    match entries_outcome(root, entries, 0, Seq::empty()) {
        Err(e) => Err(e),
        Ok(ss) => match legacy {
            Err(e) => Err(e@),
            Ok(None) => Ok(ss),
            Ok(Some(l)) => if has_target(ss, state_target(l)) {
                Ok(ss)
            } else {
                Ok(ss.push(l))
            },
        },
    }
}

fn seen_target(seen: &Vec<String>, t: &[char]) -> (r: bool)
    ensures
        r == views(seen@).contains(t@),
{
    let mut i: usize = 0;
    while i < seen.len()
        invariant
            i <= seen@.len(),
            forall|k: int| 0 <= k < i ==> #[trigger] views(seen@)[k] != t@,
        decreases seen.len() - i,
    {
        if chars_eq(&chars_of(seen[i].as_str()), t) {
            proof {
                assert(views(seen@)[i as int] == t@);
            }
            return true;
        }
        i = i + 1;
    }
    false
}

/// `read_managed_states`, given the state files under `states/` (in the
/// order the directory lists them) and the legacy `state.json` (if any):
/// every managed branch's state, sorted by branch.
pub fn read_managed_states(root: &str, entries: Vec<StateEntry>, legacy: Result<Option<ManagedState>, String>) -> (r: Result<
    Vec<ManagedState>,
    String,
>)
    ensures
        match managed_states_outcome(root@, entries@, legacy) {
            Err(e) => r == Err::<Vec<ManagedState>, String>(r->Err_0) && r->Err_0@ == e,
            Ok(ss) => r is Ok && r->Ok_0@.to_multiset() == ss.to_multiset() && is_sorted(r->Ok_0@),
        },
{
    let ghost all = entries@;
    let mut states: Vec<ManagedState> = Vec::new();
    let mut seen: Vec<String> = Vec::new();
    let mut rest = entries;
    let mut rev: Vec<StateEntry> = Vec::new();
    while rest.len() > 0
        invariant
            all.len() == rest@.len() + rev@.len(),
            forall|k: int| 0 <= k < rest@.len() ==> #[trigger] rest@[k] == all[k],
            forall|k: int| 0 <= k < rev@.len() ==> #[trigger] rev@[k] == all[all.len() - 1 - k],
        decreases rest.len(),
    {
        let x = rest.pop().unwrap();
        rev.push(x);
    }
    let mut k: usize = rev.len();
    assert(k == all.len());
    proof {
        assert(views(seen@) =~= Seq::<Seq<char>>::empty());
        match entries_outcome(root@, all, 0, Seq::empty()) {
            Ok(tail) => {
                assert(states@ + tail =~= tail);
            },
            Err(_) => {},
        }
    }
    while k > 0
        invariant
            all == entries@,
            k <= all.len(),
            rev@.len() == k,
            forall|j: int| 0 <= j < k ==> #[trigger] rev@[j] == all[all.len() - 1 - j],
            states@.len() == seen@.len(),
            forall|j: int| 0 <= j < states@.len() ==> #[trigger] views(seen@)[j] == state_target(states@[j]),
            entries_outcome(root@, all, 0, Seq::empty()) == match entries_outcome(
                root@,
                all,
                all.len() - k,
                views(seen@),
            ) {
                Ok(tail) => Ok::<Seq<ManagedState>, Seq<char>>(states@ + tail),
                Err(e) => Err(e),
            },
        decreases k,
    {
        let x = rev.pop().unwrap();
        let ghost i = all.len() - k;
        assert(x == all[i]);
        let s = match x.state {
            Err(e) => {
                return Err(e);
            },
            Ok(s) => s,
        };
        let target = s.target_path_or_first_clear();
        let expected = state_path_for_target(root, target.as_str())?;
        let tc = chars_of(target.as_str());
        if !chars_eq(&chars_of(expected.as_str()), &chars_of(x.path.as_str())) || seen_target(&seen, &tc) {
            return Err(owned("Managed slot states are ambiguous or do not match their filenames; no files were changed."));
        }
        let ghost before = states@;
        let ghost seen_before = views(seen@);
        proof {
            assert(views(seen@.push(target)) =~= seen_before.push(target@));
            match entries_outcome(root@, all, i + 1, seen_before.push(target@)) {
                Ok(tail) => {
                    assert(before + (seq![s] + tail) =~= before.push(s) + tail);
                },
                Err(_) => {},
            }
        }
        seen.push(target);
        states.push(s);
        proof {
            assert(views(seen@) =~= seen_before.push(state_target(s)));
        }
        k = k - 1;
    }
    let ghost ss = states@;
    proof {
        assert(ss + Seq::<ManagedState>::empty() =~= ss);
    }
    match legacy {
        Err(e) => {
            return Err(e);
        },
        Ok(None) => {},
        Ok(Some(l)) => {
            let lt = chars_of(l.target_path_or_first_clear().as_str());
            if !seen_target(&seen, &lt) {
                proof {
                    if has_target(ss, state_target(l)) {
                        let j = choose|j: int| 0 <= j < ss.len() && state_target(#[trigger] ss[j]) == state_target(l);
                        assert(views(seen@)[j] == state_target(l));
                    }
                }
                states.push(l);
            } else {
                proof {
                    let j = choose|j: int| 0 <= j < views(seen@).len() && views(seen@)[j] == lt@;
                    assert(state_target(ss[j]) == state_target(l));
                }
            }
        },
    }
    let ghost unsorted = states@;
    insertion_sort(states.as_mut_slice());
    Ok(states)
}

pub open spec fn mismatched_state_error() -> Seq<char> {
    "Managed slot state does not match its target filename; no files were changed."@
}

/// `read_state_for_target` when the branch's own state file exists: the
/// state it holds must be for that branch.
pub fn recorded_state_for_target(target: &str, recorded: Result<ManagedState, String>) -> (r: Result<
    Option<ManagedState>,
    String,
>)
    ensures
        match recorded {
            Err(e) => r == Err::<Option<ManagedState>, String>(e),
            Ok(s) => if state_target(s) == target@ {
                r == Ok::<Option<ManagedState>, String>(Some(s))
            } else {
                r matches Err(e) && e@ == mismatched_state_error()
            },
        },
{
    match recorded {
        Err(e) => Err(e),
        Ok(s) => if chars_eq(&chars_of(s.target_path_or_first_clear().as_str()), &chars_of(target)) {
            Ok(Some(s))
        } else {
            Err(owned("Managed slot state does not match its target filename; no files were changed."))
        },
    }
}

/// The legacy `state.json` counts for a branch only when it is that branch's.
pub fn legacy_state_for_target(target: &str, legacy: Option<ManagedState>) -> (r: Option<ManagedState>)
    ensures
        r == match legacy {
            Some(l) => if state_target(l) == target@ {
                Some(l)
            } else {
                None
            },
            None => None,
        },
{
    match legacy {
        Some(l) => if chars_eq(&chars_of(l.target_path_or_first_clear().as_str()), &chars_of(target)) {
            Some(l)
        } else {
            None
        },
        None => None,
    }
}

/// Whether the legacy `state.json` is the record of `target` (and so goes
/// when that branch's state is written or removed).
pub fn legacy_owns_target(legacy: &Option<ManagedState>, target: &str) -> (r: bool)
    ensures
        r == match *legacy {
            Some(l) => state_target(l) == target@,
            None => false,
        },
{
    match legacy {
        Some(l) => chars_eq(&chars_of(l.target_path_or_first_clear().as_str()), &chars_of(target)),
        None => false,
    }
}

} // verus!
