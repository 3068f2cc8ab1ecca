//! What the cards of the installed packages and of the updates show.

use crate::app_info::AppKind;
use crate::backend::appstream::CacheView;
use crate::backend::json_types::{ListResult, LockView};
use crate::backend::promin::{
    cards, installed_card, installed_cards, stored_version, update_card, update_cards, BackendView,
};
use crate::backend::{IconView, PackageView};
use crate::name_map::lemma_ascending_unique;
use crate::text::{first_at, lemma_after_first, occurs_at};
use vstd::prelude::*;

verus! {

/// `s` is `left`, then `middle`, then `right`.
#[verifier::opaque]
pub open spec fn splits(
    s: Seq<char>,
    left: Seq<char>,
    middle: Seq<char>,
    right: Seq<char>,
) -> bool {
    s == left + middle + right
}

/// `version` is what stands in `store_name` behind `-<name>-`, where that occurs first; it is empty
/// where that does not occur.
pub open spec fn reads_version(
    store_name: Seq<char>,
    name: Seq<char>,
    version: Seq<char>,
) -> bool {
    let middle = "-"@ + name + "-"@;
    &&& forall|left: Seq<char>, right: Seq<char>| #[trigger]
        splits(store_name, left, middle, right) && (forall|l: Seq<char>, r: Seq<char>| #[trigger]
            splits(store_name, l, middle, r) ==> left.len() <= l.len()) ==> version == right
    &&& (forall|left: Seq<char>, right: Seq<char>|
        !#[trigger] splits(store_name, left, middle, right)) ==> version == Seq::<char>::empty()
}

/// The version that is read from a store name stands behind the first `-<name>-` in it.
pub proof fn law_version_stands_behind_the_name(store_name: Seq<char>, name: Seq<char>)
    ensures
        reads_version(store_name, name, stored_version(store_name, name)),
{
    let middle = "-"@ + name + "-"@;
    let version = stored_version(store_name, name);
    assert forall|i: int| #[trigger] occurs_at(store_name, middle, i) implies splits(
        store_name,
        store_name.take(i),
        middle,
        store_name.skip(i + middle.len()),
    ) by {
        reveal(splits);
        assert(store_name =~= store_name.take(i) + store_name.subrange(i, i + middle.len())
            + store_name.skip(i + middle.len()));
    }
    assert forall|left: Seq<char>, right: Seq<char>| #[trigger]
        splits(store_name, left, middle, right) && (forall|l: Seq<char>, r: Seq<char>| #[trigger]
            splits(store_name, l, middle, r) ==> left.len() <= l.len()) implies version
        == right by {
        reveal(splits);
        let at = left.len() as int;
        assert(store_name.subrange(at, at + middle.len()) =~= middle);
        assert(first_at(store_name, middle, at));
        lemma_after_first(store_name, middle, at);
        assert(store_name.skip(at + middle.len()) =~= right);
    }
    if forall|left: Seq<char>, right: Seq<char>|
        !#[trigger] splits(store_name, left, middle, right) {
        assert forall|i: int| !#[trigger] first_at(store_name, middle, i) by {
            if first_at(store_name, middle, i) {
                assert(splits(
                    store_name,
                    store_name.take(i),
                    middle,
                    store_name.skip(i + middle.len()),
                ));
            }
        }
    }
}

/// A store name of the form `<hash>-<name>-<version>`, with a hash without a dash, tells exactly that
/// version.
pub proof fn law_plain_store_name_tells_its_version(
    hash: Seq<char>,
    name: Seq<char>,
    version: Seq<char>,
    read: Seq<char>,
)
    requires
        !hash.contains('-'),
        reads_version(hash + "-"@ + name + "-"@ + version, name, read),
    ensures
        read == version,
        stored_version(hash + "-"@ + name + "-"@ + version, name) == version,
{
    let middle = "-"@ + name + "-"@;
    let store_name = hash + "-"@ + name + "-"@ + version;
    assert(store_name =~= hash + middle + version);
    assert(splits(store_name, hash, middle, version)) by {
        reveal(splits);
    }
    assert(middle.len() > 0 && middle[0] == '-') by {
        reveal_strlit("-");
    }
    assert forall|l: Seq<char>, r: Seq<char>| #[trigger]
        splits(store_name, l, middle, r) implies hash.len() <= l.len() by {
        lemma_not_before_the_dash(hash, middle, version, l, r);
    }
    assert(read == version);
    law_version_stands_behind_the_name(store_name, name);
    assert(stored_version(store_name, name) == version);
}

/// What begins with a dash does not stand in a hash without one.
proof fn lemma_not_before_the_dash(
    hash: Seq<char>,
    middle: Seq<char>,
    version: Seq<char>,
    left: Seq<char>,
    right: Seq<char>,
)
    requires
        !hash.contains('-'),
        splits(hash + middle + version, left, middle, right),
        middle.len() > 0,
        middle[0] == '-',
    ensures
        hash.len() <= left.len(),
{
    reveal(splits);
    let at = left.len() as int;
    if at < hash.len() {
        assert((hash + middle + version)[at] == hash[at]);
        assert((left + middle + right)[at] == middle[0]);
        assert(hash.contains(hash[at]));
    }
}

/// `version` is what is shown of an installed package: the version that the lock pins, else the one
/// in its store name.
pub open spec fn tells_version(
    lock: Option<LockView>,
    name: Seq<char>,
    store_name: Seq<char>,
    version: Seq<char>,
) -> bool {
    &&& lock is Some && lock->0.packages.contains_key(name) ==> version
        == lock->0.packages[name].version
    &&& lock is None || !lock->0.packages.contains_key(name) ==> reads_version(
        store_name,
        name,
        version,
    )
}

/// The catalog has a component for the package `name`.
pub open spec fn has_components(cache: CacheView, name: Seq<char>) -> bool {
    cache.pkgnames.contains_key(name) && cache.pkgnames[name].len() > 0
}

/// `card` shows the package `name` by itself: under its own name, with a generic icon.
pub open spec fn shows_itself(cache: CacheView, name: Seq<char>, card: PackageView) -> bool {
    &&& card.id == name
    &&& card.icon == (IconView::Named { name: "package-x-generic"@, size: 128 })
    &&& card.info.source_id == cache.source_id
    &&& card.info.source_name == cache.source_name
    &&& card.info.name == name
    &&& card.info.pkgnames == seq![name]
    &&& card.info.kind == AppKind::DesktopApplication
}

/// `card` shows the component `id` as the catalog has it.
pub open spec fn shows_component(cache: CacheView, id: Seq<char>, card: PackageView) -> bool {
    &&& card.id == id
    &&& card.icon == IconView::Component
    &&& card.info == cache.infos[id]
}

/// `shown` are the cards of the package `name`: one for each of its components, in their order, or a
/// single one that shows the package by itself where it has none. All of them tell `version` and
/// `extra`. A component without metadata is shown as the package by itself.
pub open spec fn shows(
    cache: CacheView,
    name: Seq<char>,
    version: Seq<char>,
    extra: Map<Seq<char>, Seq<char>>,
    shown: Seq<PackageView>,
) -> bool {
    &&& shown.len() > 0
    &&& has_components(cache, name) ==> shown.len() == cache.pkgnames[name].len()
    &&& !has_components(cache, name) ==> shown.len() == 1 && shows_itself(cache, name, shown[0])
    &&& forall|k: int|
        0 <= k < shown.len() ==> (#[trigger] shown[k]).version == version && shown[k].extra == extra
    &&& forall|k: int|
        0 <= k < shown.len() && has_components(cache, name) ==> if cache.infos.contains_key(
            cache.pkgnames[name][k],
        ) {
            shows_component(cache, cache.pkgnames[name][k], #[trigger] shown[k])
        } else {
            shows_itself(cache, name, shown[k])
        }
}

/// A package is shown by a card for each of its components, or by itself.
pub proof fn law_cards_of_a_package(cache: CacheView, name: Seq<char>, version: Seq<char>)
    ensures
        shows(cache, name, version, Map::empty(), cards(cache, name, version)),
{
    let shown = cards(cache, name, version);
    assert forall|k: int| 0 <= k < shown.len() implies (#[trigger] shown[k]).extra == Map::<
        Seq<char>,
        Seq<char>,
    >::empty() by {
    }
}

/// `cuts` divides a sequence of `len` items into `n` parts that follow each other.
pub open spec fn divides(cuts: Seq<int>, n: int, len: int) -> bool {
    &&& cuts.len() == n + 1
    &&& cuts[0] == 0
    &&& cuts[n] == len
    &&& forall|i: int, j: int| 0 <= i <= j <= n ==> #[trigger] cuts[i] <= #[trigger] cuts[j]
}

/// The part of `whole` with the number `i`.
pub open spec fn part<B>(whole: Seq<B>, cuts: Seq<int>, i: int) -> Seq<B> {
    whole.subrange(cuts[i], cuts[i + 1])
}

/// A flattened sequence divides into its parts.
proof fn lemma_flat_map_divides<A, B>(s: Seq<A>, f: spec_fn(A) -> Seq<B>) -> (cuts: Seq<int>)
    ensures
        divides(cuts, s.len() as int, s.flat_map(f).len() as int),
        forall|i: int| 0 <= i < s.len() ==> #[trigger] part(s.flat_map(f), cuts, i) == f(s[i]),
    decreases s.len(),
{
    if s.len() == 0 {
        assert(s.flat_map(f) =~= Seq::<B>::empty());
        seq![0int]
    } else {
        let last = s.len() - 1;
        let front = s.take(last);
        let shorter = lemma_flat_map_divides(front, f);
        s.lemma_flat_map_take_append(f, last);
        assert(s.take(last + 1) =~= s);
        let left = front.flat_map(f);
        let whole = s.flat_map(f);
        assert(whole =~= left + f(s[last]));
        let cuts = shorter.push(whole.len() as int);
        assert forall|i: int| 0 <= i < s.len() implies #[trigger] part(whole, cuts, i) == f(
            s[i],
        ) by {
            if i < last {
                assert(part(left, shorter, i) == f(front[i]));
                assert(0 <= shorter[i] <= shorter[i + 1] <= left.len());
                assert(part(whole, cuts, i) =~= part(left, shorter, i));
            } else {
                assert(part(whole, cuts, i) =~= f(s[last]));
            }
        }
        cuts
    }
}

/// `shown` are the cards of the installed package `name`.
pub open spec fn shows_installed(
    backend: BackendView,
    name: Seq<char>,
    store_name: Seq<char>,
    shown: Seq<PackageView>,
) -> bool {
    exists|version: Seq<char>| #[trigger]
        tells_version(backend.lock, name, store_name, version) && shows(
            backend.cache,
            name,
            version,
            Map::empty(),
            shown,
        )
}

/// The cards of the installed packages are, package after package in the order of the list, those
/// that show the package in the version that the lock pins, else in the version of its store name.
pub proof fn law_installed_follow_the_list(backend: BackendView, list: ListResult) -> (cuts: Seq<
    int,
>)
    ensures
        divides(
            cuts,
            list.packages.pairs().len() as int,
            installed_cards(backend, list).len() as int,
        ),
        forall|i: int|
            0 <= i < list.packages.pairs().len() ==> shows_installed(
                backend,
                list.packages.pairs()[i].0,
                list.packages.pairs()[i].1@,
                #[trigger] part(installed_cards(backend, list), cuts, i),
            ),
{
    let pairs = list.packages.pairs();
    let f = installed_card(backend);
    let cuts = lemma_flat_map_divides(pairs, f);
    assert forall|i: int| 0 <= i < pairs.len() implies shows_installed(
        backend,
        pairs[i].0,
        pairs[i].1@,
        #[trigger] part(installed_cards(backend, list), cuts, i),
    ) by {
        let name = pairs[i].0;
        let store_name = pairs[i].1@;
        let version = if backend.lock is Some && backend.lock->0.packages.contains_key(name) {
            backend.lock->0.packages[name].version
        } else {
            stored_version(store_name, name)
        };
        law_version_stands_behind_the_name(store_name, name);
        law_cards_of_a_package(backend.cache, name, version);
        assert(part(installed_cards(backend, list), cuts, i) == f(pairs[i]));
        assert(tells_version(backend.lock, name, store_name, version));
    }
    cuts
}

/// Where the lock is missing or does not pin an installed package, its cards carry the version of
/// its store name `<hash>-<name>-<version>`, where the hash has no dash.
pub proof fn law_unpinned_package_shows_its_own_version(
    backend: BackendView,
    list: ListResult,
    i: int,
    hash: Seq<char>,
    version: Seq<char>,
) -> (at: (int, int))
    requires
        0 <= i < list.packages.pairs().len(),
        backend.lock is None || !backend.lock->0.packages.contains_key(list.packages.pairs()[i].0),
        !hash.contains('-'),
        list.packages.pairs()[i].1@ == hash + "-"@ + list.packages.pairs()[i].0 + "-"@ + version,
    ensures
        0 <= at.0 < at.1 <= installed_cards(backend, list).len(),
        shows(
            backend.cache,
            list.packages.pairs()[i].0,
            version,
            Map::empty(),
            installed_cards(backend, list).subrange(at.0, at.1),
        ),
{
    let name = list.packages.pairs()[i].0;
    let store_name = list.packages.pairs()[i].1@;
    let cuts = law_installed_follow_the_list(backend, list);
    let shown = part(installed_cards(backend, list), cuts, i);
    assert(shows_installed(backend, name, store_name, shown));
    let read = choose|v: Seq<char>| #[trigger]
        tells_version(backend.lock, name, store_name, v) && shows(
            backend.cache,
            name,
            v,
            Map::empty(),
            shown,
        );
    law_plain_store_name_tells_its_version(hash, name, version, read);
    (cuts[i], cuts[i + 1])
}

/// A pinned package is shown in the version that the lock pins, whatever its store name.
pub proof fn law_pinned_package_shows_the_pinned_version(
    backend: BackendView,
    list: ListResult,
    i: int,
) -> (at: (int, int))
    requires
        0 <= i < list.packages.pairs().len(),
        backend.lock is Some,
        backend.lock->0.packages.contains_key(list.packages.pairs()[i].0),
    ensures
        0 <= at.0 < at.1 <= installed_cards(backend, list).len(),
        shows(
            backend.cache,
            list.packages.pairs()[i].0,
            backend.lock->0.packages[list.packages.pairs()[i].0].version,
            Map::empty(),
            installed_cards(backend, list).subrange(at.0, at.1),
        ),
{
    let cuts = law_installed_follow_the_list(backend, list);
    assert(shows_installed(
        backend,
        list.packages.pairs()[i].0,
        list.packages.pairs()[i].1@,
        part(installed_cards(backend, list), cuts, i),
    ));
    (cuts[i], cuts[i + 1])
}

/// The lock pins another build of the package `name` than the one that is installed as
/// `store_name`: another store name is recorded, or none is and the hash, the name and the version do
/// not make up that store name.
pub open spec fn is_other_build(lock: LockView, name: Seq<char>, store_name: Seq<char>) -> bool {
    &&& lock.packages.contains_key(name)
    &&& match lock.packages[name].store_name {
        Some(recorded) => store_name != recorded,
        None => store_name != lock.packages[name].input_hash + "-"@ + name + "-"@
            + lock.packages[name].version,
    }
}

/// `shown` are the cards of the update of the package `name`: in the version that the lock pins, and
/// with the version that is installed.
pub open spec fn shows_update(
    backend: BackendView,
    name: Seq<char>,
    store_name: Seq<char>,
    shown: Seq<PackageView>,
) -> bool {
    exists|installed: Seq<char>| #[trigger]
        reads_version(store_name, name, installed) && shows(
            backend.cache,
            name,
            backend.lock->0.packages[name].version,
            Map::empty().insert(name + "_installed"@, installed),
            shown,
        )
}

/// The updates are, package after package in the order of the list, the cards of the packages of
/// which the lock pins another build than the installed one. Other packages have none, and without a
/// lock there are none.
pub proof fn law_updates_follow_the_list(backend: BackendView, list: ListResult) -> (cuts: Seq<int>)
    ensures
        divides(
            cuts,
            list.packages.pairs().len() as int,
            update_cards(backend, list).len() as int,
        ),
        backend.lock is None ==> update_cards(backend, list).len() == 0,
        forall|i: int|
            0 <= i < list.packages.pairs().len() && backend.lock is Some ==> {
                let shown = #[trigger] part(update_cards(backend, list), cuts, i);
                let name = list.packages.pairs()[i].0;
                let store_name = list.packages.pairs()[i].1@;
                if is_other_build(backend.lock->0, name, store_name) {
                    shows_update(backend, name, store_name, shown)
                } else {
                    shown.len() == 0
                }
            },
{
    let pairs = list.packages.pairs();
    let all = update_cards(backend, list);
    match backend.lock {
        None => Seq::new((pairs.len() + 1) as nat, |i: int| 0int),
        Some(lock) => {
            let f = update_card(backend.cache, lock);
            let cuts = lemma_flat_map_divides(pairs, f);
            assert forall|i: int| 0 <= i < pairs.len() implies if is_other_build(
                lock,
                pairs[i].0,
                pairs[i].1@,
            ) {
                shows_update(backend, pairs[i].0, pairs[i].1@, #[trigger] part(all, cuts, i))
            } else {
                part(all, cuts, i).len() == 0
            } by {
                let name = pairs[i].0;
                let store_name = pairs[i].1@;
                let version = lock.packages[name].version;
                let shown = part(all, cuts, i);
                assert(shown == f(pairs[i]));
                if is_other_build(lock, name, store_name) {
                    let installed = stored_version(store_name, name);
                    law_version_stands_behind_the_name(store_name, name);
                    law_cards_of_a_package(backend.cache, name, version);
                    let plain = cards(backend.cache, name, version);
                    let extra = Map::<Seq<char>, Seq<char>>::empty().insert(
                        name + "_installed"@,
                        installed,
                    );
                    assert(shown.len() == plain.len());
                    assert forall|k: int| 0 <= k < shown.len() implies #[trigger] shown[k] == (
                    PackageView { extra, ..plain[k] }) by {
                        assert(plain[k].extra == Map::<Seq<char>, Seq<char>>::empty());
                    }
                    assert(shows(backend.cache, name, version, extra, shown));
                }
            }
            cuts
        },
    }
}

/// A package is among the updates exactly where the lock pins another build of it than the installed
/// one.
pub proof fn law_update_exactly_where_the_build_differs(
    backend: BackendView,
    list: ListResult,
    i: int,
)
    requires
        list.packages.wf(),
        0 <= i < list.packages.pairs().len(),
    ensures
        (exists|k: int|
            0 <= k < update_cards(backend, list).len() && (#[trigger] update_cards(
                backend,
                list,
            )[k]).extra.contains_key(list.packages.pairs()[i].0 + "_installed"@)) <==> (
        backend.lock is Some && is_other_build(
            backend.lock->0,
            list.packages.pairs()[i].0,
            list.packages.pairs()[i].1@,
        )),
{
    let pairs = list.packages.pairs();
    let all = update_cards(backend, list);
    let cuts = law_updates_follow_the_list(backend, list);
    let key = pairs[i].0 + "_installed"@;
    let shown = part(all, cuts, i);
    if backend.lock is Some && is_other_build(backend.lock->0, pairs[i].0, pairs[i].1@) {
        assert(shows_update(backend, pairs[i].0, pairs[i].1@, shown));
        assert(cuts[i] <= cuts[i + 1] <= cuts[pairs.len() as int]);
        assert(cuts[0] <= cuts[i]);
        assert(shown[0] == all[cuts[i]]);
        assert(all[cuts[i]].extra.contains_key(key));
    }
    if exists|k: int| 0 <= k < all.len() && (#[trigger] all[k]).extra.contains_key(key) {
        let k = choose|k: int| 0 <= k < all.len() && (#[trigger] all[k]).extra.contains_key(key);
        let j = lemma_part_of(cuts, pairs.len() as int, all.len() as int, k);
        let other = part(all, cuts, j);
        assert(other[k - cuts[j]] == all[k]);
        assert(shows_update(backend, pairs[j].0, pairs[j].1@, other));
        let theirs = pairs[j].0 + "_installed"@;
        assert(key == theirs);
        assert(pairs[i].0 =~= key.take(key.len() - "_installed"@.len()));
        assert(pairs[j].0 =~= theirs.take(theirs.len() - "_installed"@.len()));
        lemma_ascending_unique(pairs, i, j);
    }
}

/// Each item of a divided sequence lies in one of its parts.
proof fn lemma_part_of(cuts: Seq<int>, n: int, len: int, k: int) -> (i: int)
    requires
        n >= 0,
        divides(cuts, n, len),
        0 <= k < len,
    ensures
        0 <= i < n,
        cuts[i] <= k < cuts[i + 1],
    decreases n,
{
    if n > 0 && k < cuts[n - 1] {
        assert forall|i: int, j: int| 0 <= i <= j <= n - 1 implies #[trigger] cuts.take(n)[i]
            <= #[trigger] cuts.take(n)[j] by {
            assert(cuts[i] <= cuts[j]);
        }
        lemma_part_of(cuts.take(n), n - 1, cuts[n - 1], k)
    } else {
        n - 1
    }
}

/// A rebuild under the same version is an update: where no store name is recorded and the installed
/// build differs from the pinned one in its hash, the package is shown among the updates, with that
/// version as the new one and as the installed one.
pub proof fn law_rebuild_is_an_update(
    backend: BackendView,
    list: ListResult,
    i: int,
    hash: Seq<char>,
) -> (at: (int, int))
    requires
        0 <= i < list.packages.pairs().len(),
        backend.lock is Some,
        backend.lock->0.packages.contains_key(list.packages.pairs()[i].0),
        backend.lock->0.packages[list.packages.pairs()[i].0].store_name is None,
        !hash.contains('-'),
        hash != backend.lock->0.packages[list.packages.pairs()[i].0].input_hash,
        list.packages.pairs()[i].1@ == hash + "-"@ + list.packages.pairs()[i].0 + "-"@
            + backend.lock->0.packages[list.packages.pairs()[i].0].version,
    ensures
        0 <= at.0 < at.1 <= update_cards(backend, list).len(),
        ({
            let name = list.packages.pairs()[i].0;
            let version = backend.lock->0.packages[name].version;
            shows(
                backend.cache,
                name,
                version,
                Map::empty().insert(name + "_installed"@, version),
                update_cards(backend, list).subrange(at.0, at.1),
            )
        }),
{
    let name = list.packages.pairs()[i].0;
    let store_name = list.packages.pairs()[i].1@;
    let entry = backend.lock->0.packages[name];
    let version = entry.version;
    let tail = "-"@ + name + "-"@ + version;
    let pinned = entry.input_hash + "-"@ + name + "-"@ + version;
    assert(store_name =~= hash + tail);
    assert(pinned =~= entry.input_hash + tail);
    if store_name == pinned {
        assert(hash.len() == entry.input_hash.len());
        assert(hash =~= store_name.take(hash.len() as int));
        assert(entry.input_hash =~= pinned.take(hash.len() as int));
    }
    let cuts = law_updates_follow_the_list(backend, list);
    let shown = part(update_cards(backend, list), cuts, i);
    assert(shows_update(backend, name, store_name, shown));
    let installed = choose|v: Seq<char>| #[trigger]
        reads_version(store_name, name, v) && shows(
            backend.cache,
            name,
            version,
            Map::empty().insert(name + "_installed"@, v),
            shown,
        );
    law_plain_store_name_tells_its_version(hash, name, version, installed);
    (cuts[i], cuts[i + 1])
}

} // verus!
