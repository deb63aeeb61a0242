//! What holds of every database that a walk through the mods folder builds.

use crate::db::load::{load_message, read_outcome, ManifestFileView};
use crate::db::model::{
    built, dependent_part, dependents, depends_on, discovered, discoveries, discovery_of,
    duplicate_part, duplicate_records, failed, same_shape, valid_at,
    valid_part, valid_records, validated, validated_record, Discovery,
};
use crate::mods::local::{LocalModView, UnsafeLocalModView};
use crate::table::{keys_of, lemma_with_entry_keys, lemma_with_entry_value, value_at, with_entry};
use crate::validate::ModValidationErrorView;
use vstd::prelude::*;

verus! {

/// The mod that a discovery gave.
pub open spec fn mod_in(d: Discovery) -> LocalModView {
    d.outcome->Ok_0
}

/// The unique name of the mod that a discovery gave.
pub open spec fn name_of(d: Discovery) -> Seq<char> {
    mod_in(d).manifest.unique_name
}

/// Whether every discovery gave a mod.
pub open spec fn all_loaded(found: Seq<Discovery>) -> bool {
    forall|i: int| 0 <= i < found.len() ==> (#[trigger] found[i]).outcome is Ok
}

/// Whether no two discoveries gave mods of the same unique name.
pub open spec fn names_distinct(found: Seq<Discovery>) -> bool {
    forall|i: int, j: int|
        0 <= i < j < found.len() ==> name_of(#[trigger] found[i]) != name_of(#[trigger] found[j])
}

/// Whether the discovery `d` gave a mod of the unique name `name`.
pub open spec fn gave(d: Discovery, name: Seq<char>) -> bool {
    d.outcome is Ok && name_of(d) == name
}

/// Whether no two discoveries lie in the same folder, and no folder's path
/// is the unique name of a mod that a discovery gave.
pub open spec fn paths_apart(found: Seq<Discovery>) -> bool {
    &&& forall|i: int, j: int|
        0 <= i < j < found.len() ==> (#[trigger] found[i]).path != (#[trigger] found[j]).path
    &&& forall|i: int, j: int|
        0 <= i < found.len() && 0 <= j < found.len() ==> !gave(
            #[trigger] found[j],
            (#[trigger] found[i]).path,
        )
}

/// Whether the discoveries at the indices `f` and `i` gave mods of one
/// unique name, and that at `f` was the first that gave one of that name.
pub open spec fn is_first_named(found: Seq<Discovery>, f: int, i: int) -> bool {
    &&& 0 <= f <= i < found.len()
    &&& found[i].outcome is Ok
    &&& gave(found[f], name_of(found[i]))
    &&& forall|k: int| 0 <= k < f ==> !gave(#[trigger] found[k], name_of(found[i]))
}

/// Whether the discovery at index `i` gave a mod whose unique name the mod
/// of an earlier discovery has.
pub open spec fn is_duplicate(found: Seq<Discovery>, i: int) -> bool {
    found[i].outcome is Ok && exists|j: int|
        0 <= j < i && gave(#[trigger] found[j], name_of(found[i]))
}

/// The number of discoveries that gave no mod.
pub open spec fn failures(found: Seq<Discovery>) -> nat
    decreases found.len(),
{
    if found.len() == 0 {
        0
    } else {
        failures(found.drop_last()) + if found.last().outcome is Err {
            1nat
        } else {
            0nat
        }
    }
}

/// The record that the database holds for a discovery that gave no mod: the
/// folder, with the reason why no mod was made of it.
pub open spec fn record_of_failure(d: Discovery) -> UnsafeLocalModView {
    failed(d, ModValidationErrorView::InvalidManifest(load_message(d.outcome->Err_0)))
}

/// The number of discoveries that gave a mod whose unique name an earlier
/// one had.
pub open spec fn duplicates(found: Seq<Discovery>) -> nat
    decreases found.len(),
{
    if found.len() == 0 {
        0
    } else {
        duplicates(found.drop_last()) + if is_duplicate(found, found.len() - 1) {
            1nat
        } else {
            0nat
        }
    }
}

/// The key under which the database holds the discovery at index `i`, whose
/// unique name the discovery at index `f` had first: the unique name for the
/// first itself, the folder's path for a later one.
pub open spec fn key_for(found: Seq<Discovery>, f: int, i: int) -> Seq<char> {
    if f == i {
        name_of(found[i])
    } else {
        found[i].path
    }
}

/// The record that the database holds for the discovery at index `i`, whose
/// unique name the discovery at index `f` had first: the mod for the first
/// itself, for a later one a record that names the folder of the first as
/// the one it duplicates.
pub open spec fn record_for(found: Seq<Discovery>, f: int, i: int) -> UnsafeLocalModView {
    if f == i {
        UnsafeLocalModView::Valid(mod_in(found[i]))
    } else {
        failed(found[i], ModValidationErrorView::DuplicateMod(mod_in(found[f]).mod_path))
    }
}

/// Whether `key` is the path of one of the discoveries, or the unique name
/// of a mod that one of them gave.
pub open spec fn is_known_key(found: Seq<Discovery>, key: Seq<char>) -> bool {
    exists|i: int| 0 <= i < found.len() && (gave(#[trigger] found[i], key) || key == found[i].path)
}

proof fn lemma_valid_records_push(
    db: Seq<(Seq<char>, UnsafeLocalModView)>,
    entry: (Seq<char>, UnsafeLocalModView),
)
    ensures
        valid_records(db.push(entry)) == match valid_part(entry.1) {
            Some(m) => valid_records(db).push(m),
            None => valid_records(db),
        },
{
    assert(db.push(entry).drop_last() =~= db);
    match valid_part(entry.1) {
        Some(m) => {
            assert(valid_records(db) + seq![m] =~= valid_records(db).push(m));
        },
        None => {},
    }
}

proof fn lemma_duplicate_records_push(
    db: Seq<(Seq<char>, UnsafeLocalModView)>,
    entry: (Seq<char>, UnsafeLocalModView),
)
    ensures
        duplicate_records(db.push(entry)) == match duplicate_part(entry.1) {
            Some(f) => duplicate_records(db).push(f),
            None => duplicate_records(db),
        },
{
    assert(db.push(entry).drop_last() =~= db);
    match duplicate_part(entry.1) {
        Some(f) => {
            assert(duplicate_records(db) + seq![f] =~= duplicate_records(db).push(f));
        },
        None => {},
    }
}

/// Deriving the errors anew leaves the records of the duplicates as they
/// are.
pub proof fn lemma_validated_duplicates(db: Seq<(Seq<char>, UnsafeLocalModView)>)
    ensures
        duplicate_records(validated(db)) == duplicate_records(db),
{
    lemma_duplicates_pointwise(validated(db), db);
}

proof fn lemma_duplicates_pointwise(
    a: Seq<(Seq<char>, UnsafeLocalModView)>,
    b: Seq<(Seq<char>, UnsafeLocalModView)>,
)
    requires
        a.len() == b.len(),
        forall|i: int|
            0 <= i < a.len() ==> duplicate_part(#[trigger] a[i].1) == duplicate_part(b[i].1),
    ensures
        duplicate_records(a) == duplicate_records(b),
    decreases a.len(),
{
    if a.len() > 0 {
        let a0 = a.drop_last();
        let b0 = b.drop_last();
        assert forall|i: int| 0 <= i < a0.len() implies duplicate_part(#[trigger] a0[i].1)
            == duplicate_part(b0[i].1) by {
            assert(a0[i] == a[i]);
            assert(b0[i] == b[i]);
        }
        lemma_duplicates_pointwise(a0, b0);
        assert(a0.push(a.last()) =~= a);
        assert(b0.push(b.last()) =~= b);
        lemma_duplicate_records_push(a0, a.last());
        lemma_duplicate_records_push(b0, b.last());
        assert(duplicate_part(a[a.len() - 1].1) == duplicate_part(b[a.len() - 1].1));
    } else {
        assert(a =~= b);
    }
}

/// Two databases of the same shape hold the same number of mods.
pub proof fn lemma_same_shape_count(
    a: Seq<(Seq<char>, UnsafeLocalModView)>,
    b: Seq<(Seq<char>, UnsafeLocalModView)>,
)
    requires
        same_shape(a, b),
    ensures
        valid_records(a).len() == valid_records(b).len(),
    decreases a.len(),
{
    if a.len() > 0 {
        let a0 = a.drop_last();
        let b0 = b.drop_last();
        assert(same_shape(a0, b0)) by {
            assert forall|i: int| 0 <= i < a0.len() implies (#[trigger] a0[i]).0 == b0[i].0 && (
            a0[i].1 is Valid <==> b0[i].1 is Valid) && (a0[i].1 is Valid
                ==> a0[i].1->Valid_0.manifest == b0[i].1->Valid_0.manifest) by {
                assert(a0[i] == a[i]);
                assert(b0[i] == b[i]);
            }
        }
        lemma_same_shape_count(a0, b0);
        assert(a0.push(a.last()) =~= a);
        assert(b0.push(b.last()) =~= b);
        lemma_valid_records_push(a0, a.last());
        lemma_valid_records_push(b0, b.last());
        assert(a.last() == a[a.len() - 1]);
        assert(b.last() == b[a.len() - 1]);
    }
}

/// Each discovery that gave a mod has a first discovery that gave a mod of
/// its unique name.
pub proof fn lemma_first_named_exists(found: Seq<Discovery>, i: int)
    requires
        0 <= i < found.len(),
        found[i].outcome is Ok,
    ensures
        exists|f: int| is_first_named(found, f, i),
{
    let name = name_of(found[i]);
    let hits = Seq::new(found.len(), |k: int| gave(found[k], name));
    assert(hits[i]);
    assert(hits.contains(true));
    hits.index_of_first_ensures(true);
    let f = hits.index_of_first(true)->0;
    assert(f <= i) by {
        if i < f {
            assert(hits[i] != true);
        }
    }
    assert forall|k: int| 0 <= k < f implies !gave(#[trigger] found[k], name) by {
        assert(hits[k] != true);
    }
    assert(hits[f]);
    assert(is_first_named(found, f, i));
}

/// A key that is not known to the database has no value in it.
proof fn lemma_unknown_key(db: Seq<(Seq<char>, UnsafeLocalModView)>, key: Seq<char>)
    requires
        !keys_of(db).contains(key),
    ensures
        keys_of(db).index_of_first(key) is None,
        value_at(db, key) is None,
        valid_at(db, key) is None,
{
    keys_of(db).index_of_first_ensures(key);
}

/// Where every manifest of a mods folder gave a mod and no two of the mods
/// share a unique name, the database holds exactly those mods, each under its
/// unique name, in the order of the walk; deriving their errors leaves their
/// number as it is.
pub proof fn lemma_distinct_mods_all_valid(found: Seq<Discovery>)
    requires
        all_loaded(found),
        names_distinct(found),
    ensures
        built(found) == Seq::new(
            found.len(),
            |i: int| (name_of(found[i]), UnsafeLocalModView::Valid(mod_in(found[i]))),
        ),
        valid_records(built(found)) == Seq::new(found.len(), |i: int| mod_in(found[i])),
        valid_records(built(found)).len() == found.len(),
        valid_records(validated(built(found))).len() == found.len(),
    decreases found.len(),
{
    let target = Seq::new(
        found.len(),
        |i: int| (name_of(found[i]), UnsafeLocalModView::Valid(mod_in(found[i]))),
    );
    let mods = Seq::new(found.len(), |i: int| mod_in(found[i]));
    if found.len() == 0 {
        assert(built(found) =~= target);
        assert(valid_records(built(found)) =~= mods);
    } else {
        let prev = found.drop_last();
        let d = found.last();
        let n = prev.len() as int;
        assert(all_loaded(prev)) by {
            assert forall|i: int| 0 <= i < prev.len() implies (#[trigger] prev[i]).outcome
                is Ok by {
                assert(prev[i] == found[i]);
            }
        }
        assert(names_distinct(prev)) by {
            assert forall|i: int, j: int| 0 <= i < j < prev.len() implies name_of(
                #[trigger] prev[i],
            ) != name_of(#[trigger] prev[j]) by {
                assert(prev[i] == found[i]);
                assert(prev[j] == found[j]);
            }
        }
        lemma_distinct_mods_all_valid(prev);
        let db = built(prev);
        assert(d == found[n]);
        assert(d.outcome is Ok);
        assert(!keys_of(db).contains(name_of(d))) by {
            if keys_of(db).contains(name_of(d)) {
                let k = choose|k: int| 0 <= k < keys_of(db).len() && keys_of(db)[k] == name_of(d);
                assert(db[k].0 == name_of(found[k]));
                assert(name_of(found[k]) != name_of(found[n]));
            }
        }
        lemma_unknown_key(db, name_of(d));
        let entry = (name_of(d), UnsafeLocalModView::Valid(mod_in(d)));
        assert(built(found) == db.push(entry));
        assert(built(found) =~= target) by {
            assert forall|i: int| 0 <= i < target.len() implies built(found)[i] == target[i] by {
                if i < n {
                    assert(prev[i] == found[i]);
                }
            }
        }
        lemma_valid_records_push(db, entry);
        assert(valid_records(built(found)) =~= mods) by {
            assert forall|i: int| 0 <= i < mods.len() implies valid_records(built(found))[i]
                == mods[i] by {
                if i < n {
                    assert(prev[i] == found[i]);
                }
            }
        }
    }
    lemma_same_shape_count(validated(built(found)), built(found));
}

/// Where no two manifests of a mods folder lie in one folder, and no
/// folder's path is the unique name of one of the mods: the database holds
/// each mod that was the first of its unique name under that name, untouched
/// by those that came later; it holds each later one under its folder's
/// path, as a duplicate of the folder of the first; it holds each folder of
/// which no mod could be made under its path, with the reason; every key of
/// the database is one of these, and none stands in it twice; and the number
/// of mods in it is the number of manifests less one for each that gave no
/// mod and one for each duplicate, before and after the errors of the mods
/// are derived.
pub proof fn lemma_duplicates_fail(found: Seq<Discovery>)
    requires
        paths_apart(found),
    ensures
        keys_of(built(found)).no_duplicates(),
        forall|key: Seq<char>| #[trigger]
            keys_of(built(found)).contains(key) ==> is_known_key(found, key),
        forall|f: int, i: int| #[trigger]
            is_first_named(found, f, i) ==> value_at(built(found), key_for(found, f, i)) == Some(
                record_for(found, f, i),
            ),
        forall|i: int|
            0 <= i < found.len() && (#[trigger] found[i]).outcome is Err ==> value_at(
                built(found),
                found[i].path,
            ) == Some(record_of_failure(found[i])),
        valid_records(built(found)).len() + duplicates(found) + failures(found) == found.len(),
        valid_records(validated(built(found))).len() + duplicates(found) + failures(found)
            == found.len(),
        built(found).len() == found.len(),
        duplicate_records(built(found)).len() == duplicates(found),
        duplicate_records(validated(built(found))) == duplicate_records(built(found)),
    decreases found.len(),
{
    lemma_same_shape_count(validated(built(found)), built(found));
    lemma_validated_duplicates(built(found));
    if found.len() == 0 {
        assert(keys_of(built(found)) =~= Seq::<Seq<char>>::empty());
    } else {
        let prev = found.drop_last();
        let d = found.last();
        let n = prev.len() as int;
        assert(d == found[n]);
        assert forall|i: int| 0 <= i < n implies #[trigger] prev[i] == found[i] by {}
        assert(paths_apart(prev)) by {
            assert forall|i: int, j: int| 0 <= i < j < prev.len() implies (#[trigger] prev[i]).path
                != (#[trigger] prev[j]).path by {
                assert(prev[i] == found[i]);
                assert(prev[j] == found[j]);
            }
            assert forall|i: int, j: int|
                0 <= i < prev.len() && 0 <= j < prev.len() implies !gave(
                #[trigger] prev[j],
                (#[trigger] prev[i]).path,
            ) by {
                assert(prev[i] == found[i]);
                assert(prev[j] == found[j]);
            }
        }
        lemma_duplicates_fail(prev);
        let db = built(prev);
        let after = built(found);
        assert(after == discovered(db, d));
        // The key under which `d` goes in, and the record that goes in.
        let first = if d.outcome is Ok {
            lemma_first_named_exists(found, n);
            choose|f: int| is_first_named(found, f, n)
        } else {
            n
        };
        let own = d.outcome is Ok && first == n;
        let key = if own {
            name_of(d)
        } else {
            d.path
        };
        let record = if d.outcome is Ok {
            record_for(found, first, n)
        } else {
            record_of_failure(d)
        };
        assert(is_duplicate(found, n) <==> d.outcome is Ok && first != n) by {
            if is_duplicate(found, n) {
                let j = choose|j: int| 0 <= j < n && gave(#[trigger] found[j], name_of(found[n]));
                if first == n {
                    assert(!gave(found[j], name_of(found[n])));
                }
            }
            if d.outcome is Ok && first != n {
                assert(gave(found[first], name_of(found[n])));
            }
        }
        // The key is new to the database.
        assert(!keys_of(db).contains(key)) by {
            if keys_of(db).contains(key) {
                assert(is_known_key(prev, key));
                let i = choose|i: int|
                    0 <= i < prev.len() && (gave(#[trigger] prev[i], key) || key == prev[i].path);
                assert(prev[i] == found[i]);
                if own {
                    if gave(found[i], key) {
                        assert(!gave(found[i], name_of(found[n])));
                    } else {
                        assert(!gave(found[n], found[i].path));
                    }
                } else {
                    if gave(found[i], key) {
                        assert(!gave(found[i], found[n].path));
                    } else {
                        assert(found[i].path != found[n].path);
                    }
                }
            }
        }
        lemma_unknown_key(db, key);
        // What the database says of the unique name of `d`.
        if d.outcome is Ok {
            if first == n {
                assert(valid_at(db, name_of(d)) is None);
            } else {
                assert(is_first_named(prev, first, first)) by {
                    assert(prev[first] == found[first]);
                    assert forall|k: int| 0 <= k < first implies !gave(
                        #[trigger] prev[k],
                        name_of(prev[first]),
                    ) by {
                        assert(prev[k] == found[k]);
                        assert(!gave(found[k], name_of(found[n])));
                    }
                }
                assert(value_at(db, key_for(prev, first, first)) == Some(
                    record_for(prev, first, first),
                ));
                assert(key_for(prev, first, first) == name_of(d));
                assert(valid_at(db, name_of(d)) == Some(mod_in(found[first])));
            }
        }
        assert(after == with_entry(db, key, record));
        assert(after == db.push((key, record)));
        lemma_with_entry_keys(db, key, record);
        assert(keys_of(after) == keys_of(db).push(key));
        // Every key is known.
        assert forall|k: Seq<char>| #[trigger] keys_of(after).contains(k) implies is_known_key(
            found,
            k,
        ) by {
            let at = choose|at: int| 0 <= at < keys_of(after).len() && keys_of(after)[at] == k;
            if at < keys_of(db).len() {
                assert(keys_of(db)[at] == k);
                assert(keys_of(db).contains(k));
                assert(is_known_key(prev, k));
                let i = choose|i: int|
                    0 <= i < prev.len() && (gave(#[trigger] prev[i], k) || k == prev[i].path);
                assert(prev[i] == found[i]);
                assert(gave(found[i], k) || k == found[i].path);
            } else {
                assert(k == key);
                assert(gave(found[n], k) || k == found[n].path);
            }
        }
        // Every discovery that gave a mod is where it belongs.
        assert forall|f: int, i: int| #[trigger] is_first_named(found, f, i) implies value_at(
            after,
            key_for(found, f, i),
        ) == Some(record_for(found, f, i)) by {
            lemma_with_entry_value(db, key, record, key_for(found, f, i));
            if i < n {
                assert(prev[i] == found[i]);
                assert(prev[f] == found[f]);
                assert(is_first_named(prev, f, i)) by {
                    assert forall|k: int| 0 <= k < f implies !gave(
                        #[trigger] prev[k],
                        name_of(prev[i]),
                    ) by {
                        assert(prev[k] == found[k]);
                    }
                }
                assert(value_at(db, key_for(prev, f, i)) == Some(record_for(prev, f, i)));
                assert(key_for(prev, f, i) == key_for(found, f, i));
                assert(record_for(prev, f, i) == record_for(found, f, i));
                assert(key_for(found, f, i) != key) by {
                    keys_of(db).index_of_first_ensures(key_for(found, f, i));
                }
            } else {
                assert(f == first) by {
                    if f < first {
                        assert(!gave(found[f], name_of(found[n])));
                    } else if first < f {
                        assert(!gave(found[first], name_of(found[n])));
                    }
                }
            }
        }
        // Every discovery that gave none is where it belongs.
        assert forall|i: int|
            0 <= i < found.len() && (#[trigger] found[i]).outcome is Err implies value_at(
            after,
            found[i].path,
        ) == Some(record_of_failure(found[i])) by {
            lemma_with_entry_value(db, key, record, found[i].path);
            if i < n {
                assert(prev[i] == found[i]);
                assert(value_at(db, prev[i].path) == Some(record_of_failure(prev[i])));
                assert(found[i].path != key) by {
                    keys_of(db).index_of_first_ensures(found[i].path);
                }
            }
        }
        // The counts of the mods and of the duplicates.
        lemma_valid_records_push(db, (key, record));
        lemma_duplicate_records_push(db, (key, record));
    }
}

/// What `filter_map` made of an element is in what it made of the sequence.
proof fn lemma_filter_map_has<A, B>(s: Seq<A>, f: spec_fn(A) -> Option<B>, i: int, b: B)
    requires
        0 <= i < s.len(),
        f(s[i]) == Some(b),
    ensures
        s.filter_map(f).contains(b),
    decreases s.len(),
{
    let rest = s.drop_last();
    let before = rest.filter_map(f);
    if i == s.len() - 1 {
        assert(s.filter_map(f) == before + seq![b]);
        assert(s.filter_map(f)[before.len() as int] == b);
    } else {
        assert(rest[i] == s[i]);
        lemma_filter_map_has(rest, f, i, b);
        let k = choose|k: int| 0 <= k < before.len() && before[k] == b;
        match f(s.last()) {
            Some(x) => {
                assert(s.filter_map(f) == before + seq![x]);
                assert(s.filter_map(f)[k] == b);
            },
            None => {},
        }
    }
}

/// The mods that depend on a mod are the mods of the database whose own
/// manifests name it among their dependencies: a mod that only depends on
/// such a mod is not among them.
pub proof fn lemma_dependents_direct(
    db: Seq<(Seq<char>, UnsafeLocalModView)>,
    unique_name: Seq<char>,
    m: LocalModView,
)
    ensures
        dependents(db, unique_name).contains(m) <==> valid_records(db).contains(m) && depends_on(
            m,
            unique_name,
        ),
{
    let depending = |e: (Seq<char>, UnsafeLocalModView)| dependent_part(e.1, unique_name);
    let valid = |e: (Seq<char>, UnsafeLocalModView)| valid_part(e.1);
    if dependents(db, unique_name).contains(m) {
        db.lemma_filter_map_contains(depending, m);
        let e = choose|e: (Seq<char>, UnsafeLocalModView)| #[trigger]
            db.contains(e) && depending(e) == Some(m);
        let i = choose|i: int| 0 <= i < db.len() && db[i] == e;
        lemma_filter_map_has(db, valid, i, m);
    }
    if valid_records(db).contains(m) && depends_on(m, unique_name) {
        db.lemma_filter_map_contains(valid, m);
        let e = choose|e: (Seq<char>, UnsafeLocalModView)| #[trigger]
            db.contains(e) && valid(e) == Some(m);
        let i = choose|i: int| 0 <= i < db.len() && db[i] == e;
        lemma_filter_map_has(db, depending, i, m);
    }
}

/// Deriving the errors anew keeps each record under its key: a mod with its
/// errors derived, any other record as it was.
pub proof fn lemma_validated_value(db: Seq<(Seq<char>, UnsafeLocalModView)>, key: Seq<char>)
    ensures
        value_at(validated(db), key) == match value_at(db, key) {
            Some(record) => Some(validated_record(record, db)),
            None => None,
        },
{
    assert(keys_of(validated(db)) =~= keys_of(db));
    keys_of(db).index_of_first_ensures(key);
}

/// Whether reading gives a mod for every manifest of `found`.
pub open spec fn all_read(found: Seq<ManifestFileView>) -> bool {
    forall|i: int| 0 <= i < found.len() ==> read_outcome(#[trigger] found[i]) is Ok
}

/// The mod that reading the manifest `file` gives.
pub open spec fn mod_read(file: ManifestFileView) -> LocalModView {
    read_outcome(file)->Ok_0
}

/// Whether no two manifests of `found` give mods of the same unique name.
pub open spec fn read_names_distinct(found: Seq<ManifestFileView>) -> bool {
    forall|i: int, j: int|
        0 <= i < j < found.len() ==> mod_read(#[trigger] found[i]).manifest.unique_name != mod_read(
            #[trigger] found[j],
        ).manifest.unique_name
}

/// Where reading gives a mod for every manifest that lies in the mods
/// folder, and no two of the mods share a unique name, the database that is
/// made of the manifests holds exactly these mods, one record for each
/// manifest in the order of the walk, each under its unique name and with the
/// manifest that was read.
pub proof fn lemma_fetched_distinct_mods(mods_path: Seq<char>, found: Seq<ManifestFileView>)
    requires
        all_read(found),
        read_names_distinct(found),
    ensures
        ({
            let db = validated(built(discoveries(mods_path, found)));
            &&& db.len() == found.len()
            &&& valid_records(db).len() == found.len()
            &&& forall|i: int|
                0 <= i < found.len() ==> (#[trigger] db[i]).0 == mod_read(
                    found[i],
                ).manifest.unique_name && db[i].1 is Valid && db[i].1->Valid_0.manifest
                    == mod_read(found[i]).manifest && db[i].1->Valid_0.mod_path == mod_read(
                    found[i],
                ).mod_path && db[i].1->Valid_0.enabled == mod_read(found[i]).enabled
        }),
{
    let ds = discoveries(mods_path, found);
    assert(all_loaded(ds)) by {
        assert forall|i: int| 0 <= i < ds.len() implies (#[trigger] ds[i]).outcome is Ok by {
            assert(read_outcome(found[i]) is Ok);
        }
    }
    assert(names_distinct(ds)) by {
        assert forall|i: int, j: int| 0 <= i < j < ds.len() implies name_of(#[trigger] ds[i])
            != name_of(#[trigger] ds[j]) by {
            assert(mod_read(found[i]).manifest.unique_name != mod_read(
                found[j],
            ).manifest.unique_name);
        }
    }
    lemma_distinct_mods_all_valid(ds);
}

/// Where reading gives a mod for every manifest that lies in the mods
/// folder, where no two of the manifests lie in one folder, and no folder's
/// path is the unique name of one of the mods: the database that is made of
/// the manifests holds one record for each manifest; the number of mods in
/// it is the number of manifests less the number of those whose unique name
/// an earlier one had; and for each of these, and for nothing else, it holds
/// the record of a duplicate.
pub proof fn lemma_fetched_duplicates(mods_path: Seq<char>, found: Seq<ManifestFileView>)
    requires
        all_read(found),
        paths_apart(discoveries(mods_path, found)),
    ensures
        ({
            let ds = discoveries(mods_path, found);
            let db = validated(built(ds));
            &&& db.len() == found.len()
            &&& valid_records(db).len() == found.len() - duplicates(ds)
            &&& duplicate_records(db).len() == duplicates(ds)
            &&& valid_records(db).len() + duplicate_records(db).len() == db.len()
        }),
{
    let ds = discoveries(mods_path, found);
    assert forall|i: int| 0 <= i < ds.len() implies (#[trigger] ds[i]).outcome is Ok by {
        assert(read_outcome(found[i]) is Ok);
        assert(ds[i] == discovery_of(mods_path, found[i]));
    }
    lemma_no_failures(ds);
    lemma_duplicates_fail(ds);
}

/// Where every discovery gave a mod, none gave none.
proof fn lemma_no_failures(found: Seq<Discovery>)
    requires
        forall|i: int| 0 <= i < found.len() ==> (#[trigger] found[i]).outcome is Ok,
    ensures
        failures(found) == 0,
    decreases found.len(),
{
    if found.len() > 0 {
        let prev = found.drop_last();
        assert forall|i: int| 0 <= i < prev.len() implies (#[trigger] prev[i]).outcome is Ok by {
            assert(prev[i] == found[i]);
        }
        lemma_no_failures(prev);
        assert(found.last() == found[found.len() - 1]);
    }
}

} // verus!
