use vstd::prelude::*;

verus! {

/// The position of the first occurrence of `id` in `list`, or the length of
/// `list` where `id` does not occur.
pub open spec fn first_index_of(list: Seq<u128>, id: u128) -> int
    decreases list.len(),
{
    if list.len() == 0 || list[0] == id {
        0
    } else {
        1 + first_index_of(list.drop_first(), id)
    }
}

/// `list` with the first occurrence of `id` taken out; `list` itself where
/// `id` does not occur.
pub open spec fn without_first(list: Seq<u128>, id: u128) -> Seq<u128> {
    let at = first_index_of(list, id);
    if at < list.len() {
        list.remove(at)
    } else {
        list
    }
}

/// `list` with `id` appended, where an absent list counts as empty.
pub open spec fn appended(index: Map<u128, Seq<u128>>, key: u128, id: u128) -> Seq<u128> {
    if index.contains_key(key) {
        index[key].push(id)
    } else {
        seq![id]
    }
}

/// A position that holds `id`, or the end of the list, and before which `id`
/// does not occur, is the position of the first occurrence.
pub proof fn lemma_first_index_found(list: Seq<u128>, id: u128, at: int)
    requires
        0 <= at <= list.len(),
        forall|j: int| 0 <= j < at ==> list[j] != id,
        at == list.len() || list[at] == id,
    ensures
        first_index_of(list, id) == at,
    decreases list.len(),
{
    if list.len() == 0 || list[0] == id {
    } else {
        let rest = list.drop_first();
        assert forall|j: int| 0 <= j < at - 1 implies rest[j] != id by {
            assert(rest[j] == list[j + 1]);
        }
        lemma_first_index_found(rest, id, at - 1);
    }
}

/// The first occurrence lies within the list exactly when `id` occurs, and
/// then it holds `id` and nothing before it does.
pub proof fn lemma_first_index_bounds(list: Seq<u128>, id: u128)
    ensures
        0 <= first_index_of(list, id) <= list.len(),
        first_index_of(list, id) < list.len() <==> list.contains(id),
        first_index_of(list, id) < list.len() ==> list[first_index_of(list, id)] == id,
        forall|j: int| 0 <= j < first_index_of(list, id) ==> list[j] != id,
    decreases list.len(),
{
    if list.len() == 0 {
    } else if list[0] == id {
        assert(list.contains(id));
    } else {
        let rest = list.drop_first();
        lemma_first_index_bounds(rest, id);
        let at = first_index_of(rest, id);
        if at < rest.len() {
            assert(list[at + 1] == rest[at]);
            assert(list.contains(id));
        }
        if list.contains(id) {
            let k = choose|k: int| 0 <= k < list.len() && list[k] == id;
            assert(rest[k - 1] == list[k]);
            assert(rest.contains(id));
        }
        assert forall|j: int| 0 <= j < 1 + at implies list[j] != id by {
            if j > 0 {
                assert(rest[j - 1] == list[j]);
            }
        }
    }
}

/// In a list without repetitions, taking out the first occurrence of `id`
/// takes out `id` altogether and leaves every other member in place.
pub proof fn lemma_without_first_of_distinct(list: Seq<u128>, id: u128)
    requires
        list.no_duplicates(),
    ensures
        without_first(list, id).no_duplicates(),
        !without_first(list, id).contains(id),
        forall|other: u128|
            other != id ==> (#[trigger] without_first(list, id).contains(other) <==> list.contains(
                other,
            )),
{
    lemma_first_index_bounds(list, id);
    let at = first_index_of(list, id);
    let rest = without_first(list, id);
    if at < list.len() {
        assert forall|i: int, j: int| 0 <= i < rest.len() && 0 <= j < rest.len() && i != j implies rest[i]
            != rest[j] by {
            let si = if i < at { i } else { i + 1 };
            let sj = if j < at { j } else { j + 1 };
            assert(rest[i] == list[si]);
            assert(rest[j] == list[sj]);
        }
        if rest.contains(id) {
            let k = choose|k: int| 0 <= k < rest.len() && rest[k] == id;
            let sk = if k < at { k } else { k + 1 };
            assert(rest[k] == list[sk]);
            assert(list[sk] == list[at]);
        }
        assert forall|other: u128| other != id implies (#[trigger] rest.contains(other)
            <==> list.contains(other)) by {
            if rest.contains(other) {
                let k = choose|k: int| 0 <= k < rest.len() && rest[k] == other;
                let sk = if k < at { k } else { k + 1 };
                assert(rest[k] == list[sk]);
            }
            if list.contains(other) {
                let k = choose|k: int| 0 <= k < list.len() && list[k] == other;
                let rk = if k < at { k } else { k - 1 };
                assert(rest[rk] == list[k]);
            }
        }
    }
}

/// Appending `id` to the list of `key` adds `id` to its members and nothing
/// else, and repeats no member where `id` was none.
pub proof fn lemma_appended_members(index: Map<u128, Seq<u128>>, key: u128, id: u128)
    ensures
        forall|other: u128| #[trigger]
            appended(index, key, id).contains(other) <==> other == id || (index.contains_key(key)
                && index[key].contains(other)),
        (index.contains_key(key) ==> index[key].no_duplicates() && !index[key].contains(id))
            ==> appended(index, key, id).no_duplicates(),
{
    let longer = appended(index, key, id);
    assert(longer[longer.len() - 1] == id);
    assert forall|other: u128| #[trigger]
        longer.contains(other) <==> other == id || (index.contains_key(key) && index[key].contains(
            other,
        )) by {
        if longer.contains(other) && other != id {
            let k = choose|k: int| 0 <= k < longer.len() && longer[k] == other;
            assert(index[key][k] == other);
        }
        if index.contains_key(key) && index[key].contains(other) {
            let k = choose|k: int| 0 <= k < index[key].len() && index[key][k] == other;
            assert(longer[k] == other);
        }
    }
    if index.contains_key(key) ==> index[key].no_duplicates() && !index[key].contains(id) {
        assert forall|i: int, j: int| 0 <= i < longer.len() && 0 <= j < longer.len() && i != j implies longer[i]
            != longer[j] by {
            if index.contains_key(key) {
                if i < index[key].len() {
                    assert(index[key].contains(longer[i]));
                }
                if j < index[key].len() {
                    assert(index[key].contains(longer[j]));
                }
            }
        }
    }
}

/// Takes the first occurrence of `id` out of `list` and says whether there
/// was one.
pub fn remove_first(list: &mut Vec<u128>, id: u128) -> (found: bool)
    ensures
        final(list)@ == without_first(old(list)@, id),
        found == old(list)@.contains(id),
{
    let mut i: usize = 0;
    while i < list.len()
        invariant
            i <= list.len(),
            list@ == old(list)@,
            forall|j: int| 0 <= j < i ==> list@[j] != id,
        decreases list.len() - i,
    {
        if list[i] == id {
            proof {
                lemma_first_index_found(list@, id, i as int);
                lemma_first_index_bounds(list@, id);
            }
            list.remove(i);
            return true;
        }
        i += 1;
    }
    proof {
        lemma_first_index_found(list@, id, i as int);
        lemma_first_index_bounds(list@, id);
    }
    false
}

} // verus!
