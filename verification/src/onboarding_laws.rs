//! What holds of the store and the dictionary once onboarding has run.

use crate::document::{
    distinct_keys, index_of, lemma_index_from, lemma_index_of_absent, lemma_lookup_put,
    lemma_put_proper, lookup, proper, put, Json,
};
use crate::keys::{
    dictionary_suffix, lemma_same_device_keys, lemma_shell_key_apart, submodel_key_spec,
};
use crate::dictionary::{dictionary_entries, holds_pairs};
use vstd::prelude::*;

verus! {

/// A submodel that was fetched: its short id, its unique id and its
/// document.
pub struct Fetched {
    pub id_short: Seq<char>,
    pub uid: Seq<char>,
    pub document: Json,
}

/// The pairs of short id and unique id of the fetched submodels.
pub open spec fn pairs_of(fetched: Seq<Fetched>) -> Seq<(Seq<char>, Seq<char>)> {
    Seq::new(fetched.len(), |i: int| (fetched[i].id_short, fetched[i].uid))
}

/// The short ids are distinct, and none is the suffix that is kept for
/// the dictionary.
pub open spec fn distinct_short_ids(fetched: Seq<Fetched>) -> bool {
    &&& forall|i: int, j: int|
        0 <= i < j < fetched.len() ==> (#[trigger] fetched[i]).id_short != (
        #[trigger] fetched[j]).id_short
    &&& forall|i: int|
        0 <= i < fetched.len() ==> (#[trigger] fetched[i]).id_short != dictionary_suffix()
}

/// What onboarding writes to the store, in order: the shell under the
/// device id, each fetched submodel under its composite key, and the
/// dictionary.
pub open spec fn onboarding_writes(
    device: Seq<char>,
    shell: Json,
    fetched: Seq<Fetched>,
    dictionary: Json,
) -> Seq<(Seq<char>, Json)> {
    seq![(device, shell)] + Seq::new(
        fetched.len(),
        |i: int| (submodel_key_spec(device, fetched[i].id_short), fetched[i].document),
    ) + seq![(submodel_key_spec(device, dictionary_suffix()), dictionary)]
}

/// The store after the first `n` writes, each an upsert.
pub open spec fn store_after(
    store: Seq<(Seq<char>, Json)>,
    writes: Seq<(Seq<char>, Json)>,
    n: int,
) -> Seq<(Seq<char>, Json)>
    decreases n,
{
    if n <= 0 || n > writes.len() {
        store
    } else {
        put(store_after(store, writes, n - 1), writes[n - 1].0, writes[n - 1].1)
    }
}

/// Writes under distinct keys into an empty store leave exactly the
/// writes in it.
pub proof fn lemma_distinct_writes_all_stored(writes: Seq<(Seq<char>, Json)>, n: int)
    requires
        distinct_keys(writes),
        0 <= n <= writes.len(),
    ensures
        store_after(Seq::empty(), writes, n) == writes.subrange(0, n),
    decreases n,
{
    if n > 0 {
        lemma_distinct_writes_all_stored(writes, n - 1);
        let before = writes.subrange(0, n - 1);
        assert forall|j: int| 0 <= j < before.len() implies (#[trigger] before[j]).0 != writes[n
            - 1].0 by {
            assert(before[j] == writes[j]);
        }
        lemma_index_of_absent(before, writes[n - 1].0);
        assert(put(before, writes[n - 1].0, writes[n - 1].1) =~= writes.subrange(0, n));
    } else {
        assert(writes.subrange(0, 0) =~= Seq::<(Seq<char>, Json)>::empty());
    }
}

/// With distinct short ids the dictionary holds one entry for each pair,
/// in order, and gives each short id its unique id.
pub proof fn lemma_dictionary_complete(pairs: Seq<(Seq<char>, Seq<char>)>, n: int)
    requires
        0 <= n <= pairs.len(),
        forall|i: int, j: int|
            0 <= i < j < pairs.len() ==> (#[trigger] pairs[i]).0 != (#[trigger] pairs[j]).0,
    ensures
        dictionary_entries(pairs, n).len() == n,
        forall|k: int|
            0 <= k < n ==> #[trigger] dictionary_entries(pairs, n)[k] == (
                pairs[k].0,
                Json::Text(pairs[k].1),
            ),
        forall|k: int|
            0 <= k < n ==> lookup(dictionary_entries(pairs, n), (#[trigger] pairs[k]).0) == Some(
                Json::Text(pairs[k].1),
            ),
    decreases n,
{
    if n > 0 {
        lemma_dictionary_complete(pairs, n - 1);
        let before = dictionary_entries(pairs, n - 1);
        let after = dictionary_entries(pairs, n);
        let key = pairs[n - 1].0;
        let value = Json::Text(pairs[n - 1].1);
        assert forall|j: int| 0 <= j < before.len() implies (#[trigger] before[j]).0 != key by {
            assert(before[j].0 == pairs[j].0);
        }
        lemma_index_of_absent(before, key);
        assert(after =~= before.push((key, value)));
        assert forall|k: int| 0 <= k < n implies lookup(after, (#[trigger] pairs[k]).0) == Some(
            Json::Text(pairs[k].1),
        ) by {
            lemma_lookup_put(before, key, value, pairs[k].0);
        }
    }
}

/// Whatever the pairs, no short id occurs twice in the dictionary.
pub proof fn lemma_dictionary_proper(pairs: Seq<(Seq<char>, Seq<char>)>, n: int)
    ensures
        proper(Json::Object(dictionary_entries(pairs, n))),
    decreases n,
{
    if n <= 0 || n > pairs.len() {
    } else {
        lemma_dictionary_proper(pairs, n - 1);
        lemma_put_proper(
            dictionary_entries(pairs, n - 1),
            pairs[n - 1].0,
            Json::Text(pairs[n - 1].1),
        );
    }
}

/// A dictionary of pairs with distinct short ids holds one entry for each
/// pair and gives each short id its unique id, whatever the order of its
/// entries.
pub proof fn lemma_dictionary_holds_every_pair(
    dictionary: Json,
    pairs: Seq<(Seq<char>, Seq<char>)>,
)
    requires
        holds_pairs(dictionary, pairs),
        forall|i: int, j: int|
            0 <= i < j < pairs.len() ==> (#[trigger] pairs[i]).0 != (#[trigger] pairs[j]).0,
    ensures
        dictionary->Object_0.len() == pairs.len(),
        forall|k: int|
            0 <= k < pairs.len() ==> lookup(dictionary->Object_0, (#[trigger] pairs[k]).0) == Some(
                Json::Text(pairs[k].1),
            ),
{
    let entries = dictionary->Object_0;
    let n = pairs.len() as int;
    let wanted = dictionary_entries(pairs, n);
    lemma_dictionary_complete(pairs, n);
    assert forall|k: int| 0 <= k < n implies lookup(entries, (#[trigger] pairs[k]).0) == Some(
        Json::Text(pairs[k].1),
    ) by {
        assert(lookup(entries, pairs[k].0) == lookup(wanted, pairs[k].0));
    }
    let held = Seq::new(entries.len(), |i: int| entries[i].0);
    let asked = Seq::new(pairs.len(), |i: int| pairs[i].0);
    assert(held.no_duplicates());
    assert(asked.no_duplicates());
    assert forall|key: Seq<char>| held.to_set().contains(key) <==> asked.to_set().contains(
        key,
    ) by {
        lemma_index_from(entries, key, 0);
        lemma_index_from(wanted, key, 0);
        assert(lookup(entries, key) == lookup(wanted, key));
        if held.contains(key) {
            let i = choose|i: int| 0 <= i < held.len() && held[i] == key;
            assert(entries[i].0 == key);
            let j = index_of_some(wanted, key);
            assert(wanted[j] == (pairs[j].0, Json::Text(pairs[j].1)));
            assert(asked[j] == key);
        }
        if asked.contains(key) {
            let j = choose|j: int| 0 <= j < asked.len() && asked[j] == key;
            assert(wanted[j] == (pairs[j].0, Json::Text(pairs[j].1)));
            assert(wanted[j].0 == key);
            let i = index_of_some(entries, key);
            assert(held[i] == key);
        }
    }
    assert(held.to_set() =~= asked.to_set());
    held.unique_seq_to_set();
    asked.unique_seq_to_set();
}

/// The index at which a key is found first, or -1.
pub open spec fn index_of_some(entries: Seq<(Seq<char>, Json)>, key: Seq<char>) -> int {
    match index_of(entries, key) {
        Some(i) => i,
        None => -1,
    }
}

/// When every fetched submodel has its own short id, the dictionary holds
/// exactly one entry for each of them, and the store holds exactly the
/// shell, one document for each of them, and the dictionary: a fetch that
/// failed leaves no trace.
pub proof fn lemma_onboarding_complete(
    device: Seq<char>,
    shell: Json,
    fetched: Seq<Fetched>,
    dictionary: Json,
)
    requires
        distinct_short_ids(fetched),
        holds_pairs(dictionary, pairs_of(fetched)),
    ensures
        dictionary->Object_0.len() == fetched.len(),
        forall|k: int|
            0 <= k < fetched.len() ==> lookup(
                dictionary->Object_0,
                (#[trigger] fetched[k]).id_short,
            ) == Some(Json::Text(fetched[k].uid)),
        store_after(
            Seq::empty(),
            onboarding_writes(device, shell, fetched, dictionary),
            fetched.len() as int + 2,
        ) == onboarding_writes(device, shell, fetched, dictionary),
        onboarding_writes(device, shell, fetched, dictionary).len() == fetched.len() + 2,
        distinct_keys(onboarding_writes(device, shell, fetched, dictionary)),
{
    let pairs = pairs_of(fetched);
    let n = fetched.len() as int;
    assert forall|i: int, j: int| 0 <= i < j < pairs.len() implies (#[trigger] pairs[i]).0 != (
    #[trigger] pairs[j]).0 by {
        assert(pairs[i].0 == fetched[i].id_short);
        assert(pairs[j].0 == fetched[j].id_short);
    }
    lemma_dictionary_holds_every_pair(dictionary, pairs);
    assert forall|k: int| 0 <= k < n implies lookup(
        dictionary->Object_0,
        (#[trigger] fetched[k]).id_short,
    ) == Some(Json::Text(fetched[k].uid)) by {
        assert(pairs[k].0 == fetched[k].id_short);
    }
    let writes = onboarding_writes(device, shell, fetched, dictionary);
    assert(writes.len() == n + 2);
    assert forall|i: int, j: int| 0 <= i < j < writes.len() implies (#[trigger] writes[i]).0 != (
    #[trigger] writes[j]).0 by {
        if i == 0 {
            if j <= n {
                lemma_shell_key_apart(device, fetched[j - 1].id_short);
            } else {
                lemma_shell_key_apart(device, dictionary_suffix());
            }
        } else if j <= n {
            if writes[i].0 == writes[j].0 {
                lemma_same_device_keys(device, fetched[i - 1].id_short, fetched[j - 1].id_short);
            }
        } else {
            if writes[i].0 == writes[j].0 {
                lemma_same_device_keys(device, fetched[i - 1].id_short, dictionary_suffix());
            }
        }
    }
    lemma_distinct_writes_all_stored(writes, n + 2);
    assert(writes.subrange(0, n + 2) =~= writes);
}

/// The submodels that were fetched among the first `n` outcomes, in
/// order. An outcome without a submodel is a fetch that failed.
pub open spec fn kept(outcomes: Seq<Option<Fetched>>, n: int) -> Seq<Fetched>
    decreases n,
{
    if n <= 0 || n > outcomes.len() {
        Seq::empty()
    } else {
        match outcomes[n - 1] {
            Some(fetched) => kept(outcomes, n - 1).push(fetched),
            None => kept(outcomes, n - 1),
        }
    }
}

/// The number of fetches that failed among the first `n` outcomes.
pub open spec fn failures(outcomes: Seq<Option<Fetched>>, n: int) -> int
    decreases n,
{
    if n <= 0 || n > outcomes.len() {
        0
    } else {
        failures(outcomes, n - 1) + if outcomes[n - 1] is None {
            1int
        } else {
            0int
        }
    }
}

/// Every outcome is either kept or a failure.
pub proof fn lemma_kept_and_failures(outcomes: Seq<Option<Fetched>>, n: int)
    requires
        0 <= n <= outcomes.len(),
    ensures
        kept(outcomes, n).len() + failures(outcomes, n) == n,
        0 <= failures(outcomes, n) <= n,
    decreases n,
{
    if n > 0 {
        lemma_kept_and_failures(outcomes, n - 1);
    }
}

/// When N submodels were asked for and M of the fetches failed, the
/// dictionary holds exactly N - M entries and the store holds exactly
/// N - M submodel documents beside the shell and the dictionary.
pub proof fn lemma_onboarding_with_failures(
    device: Seq<char>,
    shell: Json,
    outcomes: Seq<Option<Fetched>>,
    dictionary: Json,
)
    requires
        distinct_short_ids(kept(outcomes, outcomes.len() as int)),
        holds_pairs(dictionary, pairs_of(kept(outcomes, outcomes.len() as int))),
    ensures
        ({
            let fetched = kept(outcomes, outcomes.len() as int);
            let failed = failures(outcomes, outcomes.len() as int);
            &&& dictionary->Object_0.len() == outcomes.len() - failed
            &&& store_after(
                Seq::empty(),
                onboarding_writes(device, shell, fetched, dictionary),
                fetched.len() as int + 2,
            ).len() == outcomes.len() - failed + 2
        }),
{
    let fetched = kept(outcomes, outcomes.len() as int);
    lemma_kept_and_failures(outcomes, outcomes.len() as int);
    lemma_onboarding_complete(device, shell, fetched, dictionary);
}

} // verus!
