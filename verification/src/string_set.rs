//! A set of strings kept in a vector without repetitions.

use vstd::prelude::*;
use crate::storage::find_string;
use crate::types::texts;

verus! {

/// The set of the texts in `list`.
pub open spec fn text_set(list: Seq<String>) -> Set<Seq<char>> {
    Set::new(|t: Seq<char>| texts(list).contains(t))
}

/// No text occurs twice in `list`.
pub open spec fn texts_distinct(list: Seq<String>) -> bool {
    texts(list).no_duplicates()
}

/// Whether `s` is in the set.
pub fn contains_string(list: &Vec<String>, s: &String) -> (r: bool)
    ensures
        r == text_set(list@).contains(s@),
{
    match find_string(list, s) {
        Some(k) => {
            assert(texts(list@)[k as int] == s@);
            true
        },
        None => {
            assert forall|j: int| 0 <= j < texts(list@).len() implies texts(list@)[j] != s@ by {
                assert(list[j]@ != s@);
            }
            false
        },
    }
}

/// Put `s` into the set.
pub fn insert_string(list: &mut Vec<String>, s: String)
    requires
        texts_distinct(old(list)@),
    ensures
        texts_distinct(final(list)@),
        text_set(final(list)@) == text_set(old(list)@).insert(s@),
{
    let ghost before = texts(list@);
    if !contains_string(list, &s) {
        list.push(s);
        proof {
            let after = texts(list@);
            assert(after =~= before.push(s@));
            assert forall|t: Seq<char>| after.contains(t) <==> (before.contains(t) || t == s@) by {
                if before.contains(t) {
                    let j = choose|j: int| 0 <= j < before.len() && before[j] == t;
                    assert(after[j] == t);
                }
                if t == s@ {
                    assert(after[after.len() - 1] == t);
                }
            }
        }
    }
    assert(text_set(list@) =~= text_set(old(list)@).insert(s@));
}

/// Take `s` out of the set.
pub fn remove_string(list: &mut Vec<String>, s: &String)
    requires
        texts_distinct(old(list)@),
    ensures
        texts_distinct(final(list)@),
        text_set(final(list)@) == text_set(old(list)@).remove(s@),
{
    let ghost before = texts(list@);
    match find_string(list, s) {
        Some(k) => {
            list.remove(k);
            proof {
                let after = texts(list@);
                assert(after =~= before.remove(k as int));
                assert(before[k as int] == s@);
                assert forall|a: int, b: int|
                    0 <= a < after.len() && 0 <= b < after.len() && a != b implies after[a]
                    != after[b] by {
                    let a2 = if a < k { a } else { a + 1 };
                    let b2 = if b < k { b } else { b + 1 };
                    assert(after[a] == before[a2] && after[b] == before[b2]);
                }
                assert forall|t: Seq<char>| after.contains(t) <==> (before.contains(t) && t
                    != s@) by {
                    if after.contains(t) {
                        let j = choose|j: int| 0 <= j < after.len() && after[j] == t;
                        let j2 = if j < k { j } else { j + 1 };
                        assert(before[j2] == t);
                    }
                    if before.contains(t) && t != s@ {
                        let j = choose|j: int| 0 <= j < before.len() && before[j] == t;
                        let j2 = if j < k { j } else { j - 1 };
                        assert(after[j2] == t);
                    }
                }
            }
        },
        None => {
            proof {
                assert forall|j: int| 0 <= j < before.len() implies before[j] != s@ by {
                    assert(list[j]@ != s@);
                }
            }
        },
    }
    assert(text_set(list@) =~= text_set(old(list)@).remove(s@));
}

} // verus!
