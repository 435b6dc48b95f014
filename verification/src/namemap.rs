//! Name-keyed folding with last-write-wins.
//!
//! Both catalogs this tool builds — record name to record detail, zone name
//! to zone identifier — fold a provider listing into a list of entries with
//! unique names: a repeated name silently overwrites the detail already
//! held, keeping the name's place in the order of first occurrence. The
//! spec functions and laws here state that policy once, for any detail
//! type `V`.

use vstd::prelude::*;

verus! {

/// No two entries share a name.
pub open spec fn unique_names<V>(entries: Seq<(Seq<char>, V)>) -> bool {
    forall|t1: int, t2: int| 0 <= t1 < t2 < entries.len() ==> entries[t1].0 != entries[t2].0
}

/// Some entry carries the name `name`.
pub open spec fn has_name<V>(entries: Seq<(Seq<char>, V)>, name: Seq<char>) -> bool {
    exists|t: int| 0 <= t < entries.len() && entries[t].0 == name
}

/// The names of the entries, in entry order.
pub open spec fn names_of<V>(entries: Seq<(Seq<char>, V)>) -> Seq<Seq<char>> {
    entries.map_values(|e: (Seq<char>, V)| e.0)
}

/// Insert one (name, detail) pair: replace the detail in place if the name
/// is already present, append the pair otherwise.
pub open spec fn fold_insert<V>(entries: Seq<(Seq<char>, V)>, name: Seq<char>, d: V) -> Seq<
    (Seq<char>, V),
> {
    if has_name(entries, name) {
        let t = choose|t: int| 0 <= t < entries.len() && entries[t].0 == name;
        entries.update(t, (name, d))
    } else {
        entries.push((name, d))
    }
}

/// The entry list that an input list folds to, inserting each pair in order.
pub open spec fn fold_entries<V>(records: Seq<(Seq<char>, V)>) -> Seq<(Seq<char>, V)>
    decreases records.len(),
{
    if records.len() == 0 {
        Seq::empty()
    } else {
        fold_insert(fold_entries(records.drop_last()), records.last().0, records.last().1)
    }
}

/// With unique names, two entries sharing a name are one entry.
pub proof fn lemma_unique_name_index<V>(entries: Seq<(Seq<char>, V)>, a: int, b: int)
    requires
        unique_names(entries),
        0 <= a < entries.len(),
        0 <= b < entries.len(),
        entries[a].0 == entries[b].0,
    ensures
        a == b,
{
    if a < b {
        assert(entries[a].0 != entries[b].0);
    } else if b < a {
        assert(entries[b].0 != entries[a].0);
    }
}

/// What one insertion does to an entry list with unique names: the inserted
/// name maps to exactly the new detail, every other entry is untouched,
/// and uniqueness is kept.
pub proof fn lemma_fold_insert_props<V>(entries: Seq<(Seq<char>, V)>, name: Seq<char>, d: V)
    requires
        unique_names(entries),
    ensures
        unique_names(fold_insert(entries, name, d)),
        fold_insert(entries, name, d).len() == if has_name(entries, name) {
            entries.len()
        } else {
            entries.len() + 1
        },
        has_name(fold_insert(entries, name, d), name),
        forall|x: int|
            0 <= x < fold_insert(entries, name, d).len() && (#[trigger] fold_insert(
                entries,
                name,
                d,
            )[x]).0 == name ==> fold_insert(entries, name, d)[x] == (name, d),
        forall|x: int|
            0 <= x < fold_insert(entries, name, d).len() && (#[trigger] fold_insert(
                entries,
                name,
                d,
            )[x]).0 != name ==> exists|y: int|
                0 <= y < entries.len() && entries[y] == fold_insert(entries, name, d)[x],
        forall|y: int|
            0 <= y < entries.len() && (#[trigger] entries[y]).0 != name ==> exists|x: int|
                0 <= x < fold_insert(entries, name, d).len() && fold_insert(entries, name, d)[x]
                    == entries[y],
        forall|n: Seq<char>|
            #[trigger] has_name(fold_insert(entries, name, d), n) <==> has_name(entries, n) || n
                == name,
{
    let res = fold_insert(entries, name, d);
    if has_name(entries, name) {
        let t = choose|t: int| 0 <= t < entries.len() && entries[t].0 == name;
        assert(res == entries.update(t, (name, d)));
        assert(res[t] == (name, d));
        assert(forall|x: int| 0 <= x < entries.len() && x != t ==> res[x] == entries[x]);
        assert(forall|x: int|
            0 <= x < entries.len() && x != t ==> (#[trigger] entries[x]).0 != name);
        assert forall|n: Seq<char>| #[trigger] has_name(res, n) implies has_name(entries, n) || n
            == name by {
            let x = choose|x: int| 0 <= x < res.len() && res[x].0 == n;
            if x != t {
                assert(entries[x].0 == n);
            }
        }
        assert forall|n: Seq<char>| has_name(entries, n) || n == name implies #[trigger] has_name(
            res,
            n,
        ) by {
            if n == name {
                assert(res[t].0 == n);
            } else {
                let x = choose|x: int| 0 <= x < entries.len() && entries[x].0 == n;
                assert(x != t);
                assert(res[x].0 == n);
            }
        }
    } else {
        assert(res == entries.push((name, d)));
        assert(res[entries.len() as int] == (name, d));
        assert(forall|x: int| 0 <= x < entries.len() ==> res[x] == entries[x]);
        assert forall|n: Seq<char>| #[trigger] has_name(res, n) implies has_name(entries, n) || n
            == name by {
            let x = choose|x: int| 0 <= x < res.len() && res[x].0 == n;
            if x < entries.len() {
                assert(entries[x].0 == n);
            }
        }
        assert forall|n: Seq<char>| has_name(entries, n) || n == name implies #[trigger] has_name(
            res,
            n,
        ) by {
            if n == name {
                assert(res[entries.len() as int].0 == n);
            } else {
                let x = choose|x: int| 0 <= x < entries.len() && entries[x].0 == n;
                assert(res[x].0 == n);
            }
        }
    }
}

/// A folded entry list always has unique names.
pub proof fn lemma_fold_wf<V>(records: Seq<(Seq<char>, V)>)
    ensures
        unique_names(fold_entries(records)),
    decreases records.len(),
{
    if records.len() > 0 {
        lemma_fold_wf(records.drop_last());
        lemma_fold_insert_props(
            fold_entries(records.drop_last()),
            records.last().0,
            records.last().1,
        );
    }
}

/// The folded list carries a name exactly when some input pair does.
pub proof fn lemma_fold_has_name<V>(records: Seq<(Seq<char>, V)>)
    ensures
        forall|n: Seq<char>| #[trigger] has_name(fold_entries(records), n) <==> has_name(records, n),
    decreases records.len(),
{
    if records.len() > 0 {
        let dl = records.drop_last();
        lemma_fold_has_name(dl);
        lemma_fold_wf(dl);
        lemma_fold_insert_props(fold_entries(dl), records.last().0, records.last().1);
        assert forall|n: Seq<char>| #[trigger] has_name(records, n) implies has_name(
            fold_entries(records),
            n,
        ) by {
            let t = choose|t: int| 0 <= t < records.len() && records[t].0 == n;
            if t < records.len() - 1 {
                assert(dl[t] == records[t]);
                assert(has_name(dl, n));
            }
        }
        assert forall|n: Seq<char>| #[trigger] has_name(fold_entries(records), n) implies has_name(
            records,
            n,
        ) by {
            if has_name(dl, n) {
                let t = choose|t: int| 0 <= t < dl.len() && dl[t].0 == n;
                assert(records[t] == dl[t]);
            } else {
                assert(records[records.len() - 1].0 == n);
            }
        }
    }
}

/// When the input names are already unique, folding changes nothing: the
/// result is the input itself, entry for entry.
pub proof fn lemma_fold_unique_input<V>(records: Seq<(Seq<char>, V)>)
    requires
        unique_names(records),
    ensures
        fold_entries(records) == records,
    decreases records.len(),
{
    if records.len() > 0 {
        let dl = records.drop_last();
        assert(unique_names(dl)) by {
            assert(forall|t: int| 0 <= t < dl.len() ==> dl[t] == records[t]);
        }
        lemma_fold_unique_input(dl);
        if has_name(dl, records.last().0) {
            let t = choose|t: int| 0 <= t < dl.len() && dl[t].0 == records.last().0;
            assert(records[t].0 == records[records.len() - 1].0);
            assert(false);
        }
        assert(fold_entries(records) =~= records);
    }
}

/// The folded list's cardinality is the number of distinct input names: its
/// name list has no duplicates and covers exactly the input's name set.
pub proof fn lemma_fold_cardinality<V>(records: Seq<(Seq<char>, V)>)
    ensures
        names_of(fold_entries(records)).no_duplicates(),
        names_of(fold_entries(records)).to_set() =~= names_of(records).to_set(),
        fold_entries(records).len() == names_of(records).to_set().len(),
{
    broadcast use vstd::seq_lib::group_seq_lib_default;

    let cat = fold_entries(records);
    lemma_fold_wf(records);
    lemma_fold_has_name(records);
    assert(names_of(cat).no_duplicates()) by {
        assert(forall|t: int| 0 <= t < cat.len() ==> names_of(cat)[t] == (#[trigger] cat[t]).0);
    }
    assert forall|n: Seq<char>| names_of(cat).contains(n) implies names_of(records).contains(
        n,
    ) by {
        let t = choose|t: int| 0 <= t < names_of(cat).len() && names_of(cat)[t] == n;
        assert(cat[t].0 == n);
        assert(has_name(cat, n));
        assert(has_name(records, n));
        let u = choose|u: int| 0 <= u < records.len() && records[u].0 == n;
        assert(names_of(records)[u] == n);
    }
    assert forall|n: Seq<char>| names_of(records).contains(n) implies names_of(cat).contains(
        n,
    ) by {
        let u = choose|u: int| 0 <= u < names_of(records).len() && names_of(records)[u] == n;
        assert(records[u].0 == n);
        assert(has_name(records, n));
        assert(has_name(cat, n));
        let t = choose|t: int| 0 <= t < cat.len() && cat[t].0 == n;
        assert(names_of(cat)[t] == n);
    }
    assert(names_of(cat).to_set() =~= names_of(records).to_set());
    names_of(cat).unique_seq_to_set();
}

/// Last write wins: if index `t` is the last input pair named `n`, the
/// folded list carries exactly that pair's detail under `n`.
#[verifier::rlimit(50)]
pub proof fn lemma_fold_last_write<V>(records: Seq<(Seq<char>, V)>, t: int, n: Seq<char>)
    requires
        0 <= t < records.len(),
        records[t].0 == n,
        forall|u: int| t < u < records.len() ==> (#[trigger] records[u]).0 != n,
    ensures
        exists|x: int|
            0 <= x < fold_entries(records).len() && #[trigger] fold_entries(records)[x] == (
                n,
                records[t].1,
            ),
    decreases records.len(),
{
    let dl = records.drop_last();
    let last = records.last();
    let cat = fold_entries(records);
    assert(cat == fold_insert(fold_entries(dl), last.0, last.1));
    lemma_fold_wf(dl);
    lemma_fold_insert_props(fold_entries(dl), last.0, last.1);
    if t == records.len() - 1 {
        assert(has_name(cat, n));
        let x = choose|x: int| 0 <= x < cat.len() && cat[x].0 == n;
        assert(cat[x] == (n, records[t].1));
    } else {
        assert(dl[t] == records[t]);
        assert(forall|u: int| t < u < dl.len() ==> (#[trigger] dl[u]).0 != n);
        lemma_fold_last_write(dl, t, n);
        let y = choose|y: int|
            0 <= y < fold_entries(dl).len() && #[trigger] fold_entries(dl)[y] == (n, records[t].1);
        assert(last.0 != n);
        assert(fold_entries(dl)[y].0 != last.0);
        let x = choose|x: int| 0 <= x < cat.len() && cat[x] == fold_entries(dl)[y];
        assert(cat[x] == (n, records[t].1));
    }
}

} // verus!
