//! What holds of the library as a whole.

use crate::app_info::{own_info, AppKind};
use crate::backend::appstream::{catalog_address, CacheView, Components};
use crate::backend::json_types::{
    parsed, parses_to, reads_as, reported, Decoded, ListResult, LockEntryView, LockView,
};
use crate::backend::operation::{
    carriers, operation_names, Operation, OperationKind, ReportView, RunView, StepView,
};
use crate::backend::promin::{
    augmented, cards, generic_card, in_channel, installed_card, installed_cards, installed_key,
    installed_version, is_added, outdated, stored_version, update_card, update_cards,
    with_installed, BackendView, ChannelFiles,
};
use crate::backend::PackageView;
use crate::text::{
    first_at, is_white_space, lemma_after_first, occurs_at, trim_end, trim_start, trimmed,
};
use vstd::prelude::*;

pub mod answers;
pub mod cards;
pub mod channel;
pub mod operations;
pub mod text;
pub mod views;

verus! {

/// The version can be read back from a composed store name, exactly where `-<name>-` does not occur
/// in it before its place behind the hash.
pub proof fn law_version_read_back(entry: LockEntryView, name: Seq<char>)
    requires
        entry.store_name is None,
    ensures
        stored_version(entry.store_name(name), name) == entry.version <==> (forall|i: int|
            0 <= i < entry.input_hash.len() ==> !#[trigger] occurs_at(
                entry.store_name(name),
                "-"@ + name + "-"@,
                i,
            )),
{
    let store = entry.store_name(name);
    let needle = "-"@ + name + "-"@;
    let at = entry.input_hash.len() as int;
    assert(store =~= entry.input_hash + needle + entry.version);
    assert(store.subrange(at, at + needle.len()) =~= needle);
    assert(occurs_at(store, needle, at));
    assert(store.skip(at + needle.len()) =~= entry.version);
    lemma_first_exists(store, needle, at);
    let first = choose|i: int| 0 <= i <= at && first_at(store, needle, i);
    lemma_after_first(store, needle, first);
    if first < at {
        assert(store.skip(first + needle.len()).len() > entry.version.len());
    }
}

/// Where something occurs at all, it occurs first somewhere.
proof fn lemma_first_exists(hay: Seq<char>, needle: Seq<char>, at: int)
    requires
        occurs_at(hay, needle, at),
    ensures
        exists|i: int| 0 <= i <= at && first_at(hay, needle, i),
    decreases at,
{
    if exists|j: int| 0 <= j < at && #[trigger] occurs_at(hay, needle, j) {
        let j = choose|j: int| 0 <= j < at && #[trigger] occurs_at(hay, needle, j);
        lemma_first_exists(hay, needle, j);
    } else {
        assert(first_at(hay, needle, at));
    }
}

/// The version can be read back from a composed store name whose hash has no dash.
pub proof fn law_version_read_back_from_plain_hash(entry: LockEntryView, name: Seq<char>)
    requires
        entry.store_name is None,
        !entry.input_hash.contains('-'),
    ensures
        stored_version(entry.store_name(name), name) == entry.version,
{
    let store = entry.store_name(name);
    let needle = "-"@ + name + "-"@;
    reveal_strlit("-");
    assert forall|i: int| 0 <= i < entry.input_hash.len() implies !#[trigger] occurs_at(
        store,
        needle,
        i,
    ) by {
        if occurs_at(store, needle, i) {
            assert(store.subrange(i, i + needle.len())[0] == store[i]);
            assert(needle[0] == '-');
            assert(store[i] == entry.input_hash[i]);
        }
    }
    law_version_read_back(entry, name);
}

/// A composed store name tells the build: where the hashes have no dash, the same store name means
/// the same hash and the same version.
pub proof fn law_store_name_tells_the_build(a: LockEntryView, b: LockEntryView, name: Seq<char>)
    requires
        a.store_name is None,
        b.store_name is None,
        !a.input_hash.contains('-'),
        !b.input_hash.contains('-'),
    ensures
        a.store_name(name) == b.store_name(name) <==> a.input_hash == b.input_hash && a.version
            == b.version,
{
    if a.store_name(name) == b.store_name(name) {
        law_version_read_back_from_plain_hash(a, name);
        law_version_read_back_from_plain_hash(b, name);
        let tail = "-"@ + name + "-"@ + a.version;
        assert(a.store_name(name) =~= a.input_hash + tail);
        assert(b.store_name(name) =~= b.input_hash + tail);
        assert(a.input_hash =~= a.store_name(name).take(a.input_hash.len() as int));
        assert(b.input_hash =~= b.store_name(name).take(b.input_hash.len() as int));
    }
}

/// A package always has a card.
pub proof fn law_package_has_card(cache: CacheView, name: Seq<char>, version: Seq<char>)
    ensures
        cards(cache, name, version).len() > 0,
        forall|i: int|
            0 <= i < cards(cache, name, version).len() ==> (#[trigger] cards(
                cache,
                name,
                version,
            )[i]).version == version,
{
}

/// What a flattened sequence holds comes from one of its parts, and each part is in it.
proof fn lemma_flat_map_contains<A, B>(s: Seq<A>, f: spec_fn(A) -> Seq<B>, b: B)
    ensures
        s.flat_map(f).contains(b) <==> exists|i: int|
            0 <= i < s.len() && (#[trigger] f(s[i])).contains(b),
    decreases s.len(),
{
    if s.len() == 0 {
        assert(s.flat_map(f) =~= Seq::<B>::empty());
    } else {
        let last = s.len() - 1;
        let front = s.take(last);
        lemma_flat_map_contains(front, f, b);
        s.lemma_flat_map_take_append(f, last);
        assert(s.take(last + 1) =~= s);
        let whole = s.flat_map(f);
        let left = front.flat_map(f);
        let right = f(s[last]);
        assert(whole =~= left + right);
        if left.contains(b) {
            let k = choose|k: int| 0 <= k < left.len() && left[k] == b;
            assert(whole[k] == b);
            let i = choose|i: int| 0 <= i < front.len() && (#[trigger] f(front[i])).contains(b);
            assert(front[i] == s[i]);
        }
        if right.contains(b) {
            let k = choose|k: int| 0 <= k < right.len() && right[k] == b;
            assert(whole[left.len() + k] == b);
        }
        if whole.contains(b) {
            let k = choose|k: int| 0 <= k < whole.len() && whole[k] == b;
            if k < left.len() {
                assert(left[k] == b);
            } else {
                assert(right[k - left.len()] == b);
            }
        }
        if exists|i: int| 0 <= i < s.len() && (#[trigger] f(s[i])).contains(b) {
            let i = choose|i: int| 0 <= i < s.len() && (#[trigger] f(s[i])).contains(b);
            if i < last {
                assert(front[i] == s[i]);
            }
        }
    }
}

/// The cards of the installed packages are those of each package on the list, and no others.
pub proof fn law_installed_shows_the_list(
    backend: BackendView,
    list: ListResult,
    card: PackageView,
)
    ensures
        installed_cards(backend, list).contains(card) <==> exists|i: int|
            0 <= i < list.packages.pairs().len() && cards(
                backend.cache,
                (#[trigger] list.packages.pairs()[i]).0,
                installed_version(
                    backend.lock,
                    list.packages.pairs()[i].0,
                    list.packages.pairs()[i].1@,
                ),
            ).contains(card),
{
    let pairs = list.packages.pairs();
    let f = installed_card(backend);
    lemma_flat_map_contains(pairs, f, card);
    if installed_cards(backend, list).contains(card) {
        let i = choose|i: int| 0 <= i < pairs.len() && (#[trigger] f(pairs[i])).contains(card);
        assert(cards(
            backend.cache,
            pairs[i].0,
            installed_version(backend.lock, pairs[i].0, pairs[i].1@),
        ).contains(card));
    }
    if exists|i: int|
        0 <= i < pairs.len() && cards(
            backend.cache,
            (#[trigger] pairs[i]).0,
            installed_version(backend.lock, pairs[i].0, pairs[i].1@),
        ).contains(card) {
        let i = choose|i: int|
            0 <= i < pairs.len() && cards(
                backend.cache,
                (#[trigger] pairs[i]).0,
                installed_version(backend.lock, pairs[i].0, pairs[i].1@),
            ).contains(card);
        assert(f(pairs[i]).contains(card));
    }
}

/// There is an update exactly where the lock pins another build of an installed package than the
/// installed one. So an installation whose builds are all as pinned has no updates.
pub proof fn law_updates_are_the_outdated(backend: BackendView, list: ListResult)
    ensures
        update_cards(backend, list).len() > 0 <==> (backend.lock is Some && exists|i: int|
            0 <= i < list.packages.pairs().len() && outdated(
                backend.lock->0,
                (#[trigger] list.packages.pairs()[i]).0,
                list.packages.pairs()[i].1@,
            )),
{
    if let Some(lock) = backend.lock {
        let pairs = list.packages.pairs();
        let f = update_card(backend.cache, lock);
        let found = update_cards(backend, list);
        if found.len() > 0 {
            lemma_flat_map_contains(pairs, f, found[0]);
            assert(found.contains(found[0]));
            let i = choose|i: int|
                0 <= i < pairs.len() && (#[trigger] f(pairs[i])).contains(found[0]);
            assert(outdated(lock, pairs[i].0, pairs[i].1@));
        }
        if exists|i: int|
            0 <= i < pairs.len() && outdated(lock, (#[trigger] pairs[i]).0, pairs[i].1@) {
            let i = choose|i: int|
                0 <= i < pairs.len() && outdated(lock, (#[trigger] pairs[i]).0, pairs[i].1@);
            law_outdated_is_shown(backend, list, i);
        }
    }
}

/// An outdated package is shown among the updates, with the version that the lock pins and with the
/// version that is installed.
pub proof fn law_outdated_is_shown(backend: BackendView, list: ListResult, i: int)
    requires
        backend.lock is Some,
        0 <= i < list.packages.pairs().len(),
        outdated(backend.lock->0, list.packages.pairs()[i].0, list.packages.pairs()[i].1@),
    ensures
        exists|k: int|
            0 <= k < update_cards(backend, list).len() && ({
                let name = list.packages.pairs()[i].0;
                let store_name = list.packages.pairs()[i].1@;
                let card = #[trigger] update_cards(backend, list)[k];
                &&& card.version == backend.lock->0.packages[name].version
                &&& card.extra == Map::<Seq<char>, Seq<char>>::empty().insert(
                    installed_key(name),
                    stored_version(store_name, name),
                )
            }),
{
    let lock = backend.lock->0;
    let pairs = list.packages.pairs();
    let f = update_card(backend.cache, lock);
    let name = pairs[i].0;
    let version = lock.packages[name].version;
    law_package_has_card(backend.cache, name, version);
    let plain = cards(backend.cache, name, version);
    let card = with_installed(plain[0], name, pairs[i].1@);
    assert(f(pairs[i])[0] == card);
    assert(f(pairs[i]).contains(card));
    lemma_flat_map_contains(pairs, f, card);
    let all = update_cards(backend, list);
    let k = choose|k: int| 0 <= k < all.len() && all[k] == card;
    assert(all[k].version == version);
    assert(plain[0].extra =~= Map::<Seq<char>, Seq<char>>::empty());
}

/// Every card among the updates is that of an outdated package.
pub proof fn law_updates_show_only_outdated(
    backend: BackendView,
    list: ListResult,
    card: PackageView,
)
    requires
        update_cards(backend, list).contains(card),
    ensures
        backend.lock is Some,
        exists|i: int|
            0 <= i < list.packages.pairs().len() && ({
                let name = (#[trigger] list.packages.pairs()[i]).0;
                let store_name = list.packages.pairs()[i].1@;
                &&& outdated(backend.lock->0, name, store_name)
                &&& card.version == backend.lock->0.packages[name].version
                &&& card.extra.contains_key(installed_key(name))
                &&& card.extra[installed_key(name)] == stored_version(store_name, name)
            }),
{
    if let Some(lock) = backend.lock {
        let pairs = list.packages.pairs();
        let f = update_card(backend.cache, lock);
        lemma_flat_map_contains(pairs, f, card);
        let i = choose|i: int| 0 <= i < pairs.len() && (#[trigger] f(pairs[i])).contains(card);
        let shown = f(pairs[i]);
        let k = choose|k: int| 0 <= k < shown.len() && shown[k] == card;
        law_package_has_card(backend.cache, pairs[i].0, lock.packages[pairs[i].0].version);
        assert(card == with_installed(
            cards(backend.cache, pairs[i].0, lock.packages[pairs[i].0].version)[k],
            pairs[i].0,
            pairs[i].1@,
        ));
    }
}

/// `at` picks `part` out of `whole`, in order.
pub open spec fn picks<A>(at: Seq<int>, part: Seq<A>, whole: Seq<A>) -> bool {
    &&& at.len() == part.len()
    &&& forall|k: int|
        0 <= k < at.len() ==> 0 <= #[trigger] at[k] < whole.len() && whole[at[k]] == part[k]
    &&& forall|i: int, j: int| 0 <= i < j < at.len() ==> #[trigger] at[i] < #[trigger] at[j]
}

/// `part` is `whole` with some items left out.
pub open spec fn is_subsequence<A>(part: Seq<A>, whole: Seq<A>) -> bool {
    exists|at: Seq<int>| picks(at, part, whole)
}

/// A card without what it tells besides.
pub open spec fn without_extra() -> spec_fn(PackageView) -> PackageView {
    |card: PackageView| PackageView { extra: Map::empty(), ..card }
}

/// The updates are among the installed packages: with what an update tells of the installed version
/// left aside, the cards of the updates are those of the installed packages with some left out, in
/// the same order.
pub proof fn law_updates_are_among_the_installed(backend: BackendView, list: ListResult)
    ensures
        is_subsequence(
            update_cards(backend, list).map_values(without_extra()),
            installed_cards(backend, list),
        ),
{
    let pairs = list.packages.pairs();
    let g = installed_card(backend);
    match backend.lock {
        Some(lock) => {
            let f = update_card(backend.cache, lock);
            assert forall|i: int| 0 <= i < pairs.len() implies (#[trigger] f(pairs[i])).len() == 0
                || f(pairs[i]).map_values(without_extra()) == g(pairs[i]) by {
                let plain = g(pairs[i]);
                if outdated(lock, pairs[i].0, pairs[i].1@) {
                    assert forall|k: int| 0 <= k < plain.len() implies (
                    #[trigger] plain[k]).extra == Map::<Seq<char>, Seq<char>>::empty() by {
                    }
                    assert(f(pairs[i]).map_values(without_extra()) =~= plain);
                }
            }
            lemma_flat_map_subsequence(pairs, f, g, without_extra());
        },
        None => {
            let none = update_cards(backend, list).map_values(without_extra());
            assert(picks(Seq::empty(), none, installed_cards(backend, list)));
        },
    }
}

/// Where each part of a flattened sequence is left out or kept whole, a subsequence is left.
proof fn lemma_flat_map_subsequence<A, B>(
    s: Seq<A>,
    f: spec_fn(A) -> Seq<B>,
    g: spec_fn(A) -> Seq<B>,
    plain: spec_fn(B) -> B,
)
    requires
        forall|i: int|
            0 <= i < s.len() ==> (#[trigger] f(s[i])).len() == 0 || f(s[i]).map_values(plain) == g(
                s[i],
            ),
    ensures
        is_subsequence(s.flat_map(f).map_values(plain), s.flat_map(g)),
    decreases s.len(),
{
    if s.len() == 0 {
        assert(s.flat_map(f) =~= Seq::<B>::empty());
        assert(picks(Seq::empty(), s.flat_map(f).map_values(plain), s.flat_map(g)));
    } else {
        let last = s.len() - 1;
        let front = s.take(last);
        assert forall|i: int| 0 <= i < front.len() implies (#[trigger] f(front[i])).len() == 0 || f(
            front[i],
        ).map_values(plain) == g(front[i]) by {
            assert(front[i] == s[i]);
        }
        lemma_flat_map_subsequence(front, f, g, plain);
        s.lemma_flat_map_take_append(f, last);
        s.lemma_flat_map_take_append(g, last);
        assert(s.take(last + 1) =~= s);
        let part = front.flat_map(f).map_values(plain);
        let whole = front.flat_map(g);
        let at = choose|at: Seq<int>| picks(at, part, whole);
        let tail = f(s[last]).map_values(plain);
        assert(s.flat_map(f).map_values(plain) =~= part + tail);
        assert(s.flat_map(g) =~= whole + g(s[last]));
        let more = at + Seq::new(tail.len(), |k: int| whole.len() + k);
        assert(picks(more, part + tail, whole + g(s[last])));
    }
}

/// Every package that the channel offers is known once the recipes are added: it has a component.
/// One that had none before is its own component; it is no application, unless the catalog has a
/// component of that name already.
pub proof fn law_recipes_become_known(
    cache: CacheView,
    lock: Option<LockView>,
    recipes: Seq<Seq<char>>,
    name: Seq<char>,
)
    requires
        recipes.contains(name),
        in_channel(lock, name),
    ensures
        augmented(cache, lock, recipes).pkgnames.contains_key(name),
        !cache.pkgnames.contains_key(name) ==> augmented(cache, lock, recipes).ids(name) == seq![
            name,
        ],
        !cache.pkgnames.contains_key(name) ==> augmented(cache, lock, recipes).infos.contains_key(
            name,
        ),
        !cache.pkgnames.contains_key(name) && !cache.infos.contains_key(name) ==> augmented(
            cache,
            lock,
            recipes,
        ).infos[name] == own_info(cache.source_id, cache.source_name, name, AppKind::Addon),
{
}

/// Adding recipes leaves the packages that have a component as they were, and adds no package that
/// the channel does not offer.
pub proof fn law_catalog_is_kept(
    cache: CacheView,
    lock: Option<LockView>,
    recipes: Seq<Seq<char>>,
    name: Seq<char>,
)
    ensures
        cache.pkgnames.contains_key(name) || !in_channel(lock, name) ==> {
            &&& augmented(cache, lock, recipes).pkgnames.contains_key(name)
                == cache.pkgnames.contains_key(name)
            &&& augmented(cache, lock, recipes).ids(name) == cache.ids(name)
        },
{
}

/// Adding recipes leaves what is known of a component as it was, and makes nothing known but the
/// added packages.
pub proof fn law_components_are_kept(
    cache: CacheView,
    lock: Option<LockView>,
    recipes: Seq<Seq<char>>,
    id: Seq<char>,
)
    ensures
        cache.infos.contains_key(id) ==> augmented(cache, lock, recipes).infos.contains_key(id)
            && augmented(cache, lock, recipes).infos[id] == cache.infos[id],
        augmented(cache, lock, recipes).infos.contains_key(id) ==> cache.infos.contains_key(id)
            || is_added(cache, lock, recipes, id),
{
}

/// Under a lock no package is added that it does not pin, so a lock that pins nothing leaves the
/// cache as it was.
pub proof fn law_lock_limits_what_is_added(
    cache: CacheView,
    lock: LockView,
    recipes: Seq<Seq<char>>,
)
    ensures
        forall|name: Seq<char>| #[trigger]
            augmented(cache, Some(lock), recipes).pkgnames.contains_key(name)
                ==> cache.pkgnames.contains_key(name) || lock.packages.contains_key(name),
        lock.packages == Map::<Seq<char>, LockEntryView>::empty() ==> augmented(
            cache,
            Some(lock),
            recipes,
        ) == cache,
{
    if lock.packages == Map::<Seq<char>, LockEntryView>::empty() {
        let after = augmented(cache, Some(lock), recipes);
        assert(after.infos =~= cache.infos);
        assert(after.pkgnames =~= cache.pkgnames);
    }
}

/// Adding recipes adds no application: what is shown as one was shown as one before.
pub proof fn law_recipes_are_no_applications(
    cache: CacheView,
    lock: Option<LockView>,
    recipes: Seq<Seq<char>>,
    id: Seq<char>,
)
    requires
        augmented(cache, lock, recipes).infos.contains_key(id),
        augmented(cache, lock, recipes).infos[id].kind == AppKind::DesktopApplication,
    ensures
        cache.infos.contains_key(id),
        cache.infos[id] == augmented(cache, lock, recipes).infos[id],
{
}

/// Adding the same recipes again changes nothing.
pub proof fn law_adding_recipes_twice(
    cache: CacheView,
    lock: Option<LockView>,
    recipes: Seq<Seq<char>>,
)
    ensures
        augmented(augmented(cache, lock, recipes), lock, recipes) == augmented(
            cache,
            lock,
            recipes,
        ),
{
    let once = augmented(cache, lock, recipes);
    let twice = augmented(once, lock, recipes);
    assert forall|name: Seq<char>| !is_added(once, lock, recipes, name) by {
        if recipes.contains(name) && in_channel(lock, name) {
            law_recipes_become_known(cache, lock, recipes, name);
        }
    }
    assert(twice.infos =~= once.infos);
    assert(twice.pkgnames =~= once.pkgnames);
}

/// Filling the cache again from the same sources changes nothing.
pub proof fn law_loading_twice(
    backend: BackendView,
    files: Option<ChannelFiles>,
    components: Components,
    recipes: Seq<Seq<char>>,
)
    ensures
        ({
            let once = backend.reread(files).with_components(components).with_recipes(recipes);
            once.reread(files).with_components(components).with_recipes(recipes) == once
        }),
{
}

/// An operation on the card of a package without a component names that package.
pub proof fn law_generic_card_names_its_package(
    cache: CacheView,
    name: Seq<char>,
    version: Seq<char>,
    op: Operation,
)
    requires
        op.infos@.len() == 1,
        op.infos@[0]@ == generic_card(cache, name, version).info,
    ensures
        operation_names(op) == seq![name],
{
    op.infos@.lemma_flat_map_singleton(carriers());
}

/// An operation on a package that was added from the recipes names that package, unless the catalog
/// has a component of that name already.
pub proof fn law_added_package_names_itself(
    cache: CacheView,
    lock: Option<LockView>,
    recipes: Seq<Seq<char>>,
    name: Seq<char>,
    op: Operation,
)
    requires
        is_added(cache, lock, recipes, name),
        !cache.infos.contains_key(name),
        op.infos@.len() == 1,
        op.infos@[0]@ == augmented(cache, lock, recipes).infos[name],
    ensures
        operation_names(op) == seq![name],
{
    op.infos@.lemma_flat_map_singleton(carriers());
}

/// The requests that an operation makes, and how it ends, where `errors` are the errors of its
/// commands.
pub open spec fn course(run: RunView, errors: spec_fn(int) -> Option<Seq<char>>) -> (
    Seq<Seq<Seq<char>>>,
    Result<(), Seq<char>>,
)
    decreases run.names.len() - run.done,
{
    match run.next() {
        StepView::Finish(_) => (Seq::empty(), Ok(())),
        StepView::Refuse(e) => (Seq::empty(), Err(e)),
        StepView::Run(request) => match errors(run.done) {
            Some(e) => (seq![request], Err(e)),
            None => {
                let rest = course(run.advanced(), errors);
                (seq![request] + rest.0, rest.1)
            },
        },
    }
}

/// An operation of which no command fails makes one request for each package that is not done, in
/// order, and succeeds.
pub proof fn law_operation_handles_each_package(
    run: RunView,
    errors: spec_fn(int) -> Option<Seq<char>>,
)
    requires
        run.wf(),
        run.installs() || run.removes(),
        forall|i: int| run.done <= i < run.names.len() ==> #[trigger] errors(i) is None,
    ensures
        course(run, errors).1 is Ok,
        course(run, errors).0 == Seq::new(
            (run.names.len() - run.done) as nat,
            |k: int| run.request(run.done + k),
        ),
    decreases run.names.len() - run.done,
{
    let asked = Seq::new(
        (run.names.len() - run.done) as nat,
        |k: int| run.request(run.done + k),
    );
    if run.done < run.names.len() {
        assert(errors(run.done) is None);
        law_operation_handles_each_package(run.advanced(), errors);
        assert(course(run, errors).0 =~= asked);
    } else {
        assert(course(run, errors).0 =~= asked);
    }
}

/// An operation of which a command fails ends there, with that command's error: the packages before
/// it are handled, those behind it are not.
pub proof fn law_operation_stops_at_error(
    run: RunView,
    errors: spec_fn(int) -> Option<Seq<char>>,
    at: int,
)
    requires
        run.wf(),
        run.installs() || run.removes(),
        run.done <= at < run.names.len(),
        errors(at) is Some,
        forall|i: int| run.done <= i < at ==> #[trigger] errors(i) is None,
    ensures
        course(run, errors).1 == Err::<(), Seq<char>>(errors(at)->0),
        course(run, errors).0 == Seq::new(
            (at + 1 - run.done) as nat,
            |k: int| run.request(run.done + k),
        ),
    decreases at - run.done,
{
    let asked = Seq::new((at + 1 - run.done) as nat, |k: int| run.request(run.done + k));
    if run.done < at {
        assert(errors(run.done) is None);
        law_operation_stops_at_error(run.advanced(), errors, at);
    }
    assert(course(run, errors).0 =~= asked);
}

/// An operation on channels is refused without a request.
pub proof fn law_channel_operation_is_refused(
    run: RunView,
    errors: spec_fn(int) -> Option<Seq<char>>,
)
    requires
        run.wf(),
        run.done == 0,
        !run.installs(),
        !run.removes(),
    ensures
        course(run, errors).1 is Err,
        course(run, errors).0.len() == 0,
{
}

/// An operation is complete once all its packages are done, and not before.
pub proof fn law_complete_when_all_done(run: RunView)
    requires
        run.wf(),
    ensures
        run.next() is Finish <==> run.done == run.names.len(),
{
}

/// The reports of an operation after the first: one after each package that is done, and that of the
/// last step.
pub open spec fn later_reports(
    run: RunView,
    errors: spec_fn(int) -> Option<Seq<char>>,
) -> Seq<ReportView>
    decreases run.names.len() - run.done,
{
    match run.next() {
        StepView::Finish(last) => seq![last],
        StepView::Refuse(_) => Seq::empty(),
        StepView::Run(_) => match errors(run.done) {
            Some(_) => Seq::empty(),
            None => seq![run.advanced().report()] + later_reports(run.advanced(), errors),
        },
    }
}

/// The reports of an operation, where `errors` are the errors of its commands: one as it begins, and
/// those that follow.
pub open spec fn reports(
    run: RunView,
    errors: spec_fn(int) -> Option<Seq<char>>,
) -> Seq<ReportView> {
    seq![run.report()] + later_reports(run, errors)
}

/// The reports of an operation are on a scale from 0 to 100: they start at 0, never fall, and never
/// exceed 100. Each tells of one package more than the one before it. Where the operation succeeds
/// there are two more of them than packages, and the last one tells 100; where it fails none does.
pub proof fn law_reports_of_an_operation(
    run: RunView,
    errors: spec_fn(int) -> Option<Seq<char>>,
)
    requires
        run.wf(),
        run.done == 0,
    ensures
        reports(run, errors)[0].told() == 0,
        forall|i: int|
            0 <= i < reports(run, errors).len() ==> {
                &&& (#[trigger] reports(run, errors)[i]).total == run.names.len()
                &&& reports(run, errors)[i].scale == 100
                &&& 0 <= reports(run, errors)[i].told() <= 100 * run.names.len()
                &&& i <= run.names.len() ==> reports(run, errors)[i].done == i
            },
        forall|i: int, j: int|
            0 <= i <= j < reports(run, errors).len() ==> (#[trigger] reports(run, errors)[i]).told()
                <= (#[trigger] reports(run, errors)[j]).told(),
        course(run, errors).1 is Ok ==> reports(run, errors).len() == run.names.len() + 2
            && reports(run, errors).last().told() == 100 * run.names.len(),
        course(run, errors).1 is Err ==> reports(run, errors).last().told() < 100
            * run.names.len(),
{
    lemma_reports_rise(run, errors);
}

/// The reports of an operation that has come some way.
proof fn lemma_reports_rise(run: RunView, errors: spec_fn(int) -> Option<Seq<char>>)
    requires
        run.wf(),
    ensures
        forall|i: int|
            0 <= i < reports(run, errors).len() ==> {
                &&& (#[trigger] reports(run, errors)[i]).total == run.names.len()
                &&& reports(run, errors)[i].scale == 100
                &&& run.done <= reports(run, errors)[i].done <= run.names.len()
                &&& run.done + i <= run.names.len() ==> reports(run, errors)[i].done == run.done + i
            },
        forall|i: int, j: int|
            0 <= i <= j < reports(run, errors).len() ==> (#[trigger] reports(run, errors)[i]).done
                <= (#[trigger] reports(run, errors)[j]).done,
        course(run, errors).1 is Ok ==> reports(run, errors).len() == run.names.len() - run.done
            + 2 && reports(run, errors).last().done == run.names.len(),
        course(run, errors).1 is Err ==> reports(run, errors).last().done < run.names.len(),
    decreases run.names.len() - run.done,
{
    let all = reports(run, errors);
    assert(all[0] == run.report());
    if run.next() is Run && errors(run.done) is None {
        let rest = reports(run.advanced(), errors);
        lemma_reports_rise(run.advanced(), errors);
        assert(all =~= seq![run.report()] + rest);
        assert forall|i: int| 0 < i < all.len() implies #[trigger] all[i] == rest[i - 1] by {
        }
        assert(all.last() == rest.last());
    }
}

/// An update runs exactly as an installation of the same packages does: it makes the same requests,
/// ends in the same way, and reports the same.
pub proof fn law_update_runs_as_installation(
    update: RunView,
    installation: RunView,
    errors: spec_fn(int) -> Option<Seq<char>>,
)
    requires
        update.wf(),
        update.kind == OperationKind::Update,
        installation == (RunView { kind: OperationKind::Install, ..update }),
    ensures
        update.next() == installation.next(),
        course(update, errors) == course(installation, errors),
        reports(update, errors) == reports(installation, errors),
    decreases update.names.len() - update.done,
{
    if update.done < update.names.len() {
        law_update_runs_as_installation(update.advanced(), installation.advanced(), errors);
        assert(later_reports(update.advanced(), errors) =~= reports(
            update.advanced(),
            errors,
        ).drop_first());
        assert(later_reports(installation.advanced(), errors) =~= reports(
            installation.advanced(),
            errors,
        ).drop_first());
    }
}

/// A reported failure is an error, whatever else the line may be read as.
pub proof fn law_reported_failure_is_an_error<T>(stdout: Seq<char>, decoded: Decoded<T>)
    requires
        reported(decoded.envelope) is Some,
    ensures
        parsed(stdout, decoded) is Err,
        trimmed(stdout).len() > 0 ==> parsed(stdout, decoded) == Err::<T, Seq<char>>(
            reported(decoded.envelope)->0,
        ),
{
}

/// White space around what a command prints makes no difference: the decoder is handed the same
/// line, and what it makes of that line means the same.
pub proof fn law_white_space_around_an_answer<T, F: Fn(&str) -> Decoded<T>>(
    before: Seq<char>,
    stdout: Seq<char>,
    after: Seq<char>,
    read: F,
    decoded: Decoded<T>,
    result: Result<T, Seq<char>>,
)
    requires
        forall|i: int| 0 <= i < before.len() ==> is_white_space(#[trigger] before[i]),
        forall|i: int| 0 <= i < after.len() ==> is_white_space(#[trigger] after[i]),
    ensures
        trimmed(before + stdout + after) == trimmed(stdout),
        reads_as(read, before + stdout + after, decoded) == reads_as(read, stdout, decoded),
        parsed(before + stdout + after, decoded) == parsed(stdout, decoded),
        parses_to(read, before + stdout + after, result) == parses_to(read, stdout, result),
{
    let whole = before + stdout + after;
    lemma_trim_start_skips(before, stdout + after);
    assert(whole =~= before + (stdout + after));
    lemma_trim_end_skips(stdout, after);
    if trimmed(stdout).len() > 0 {
        if parses_to(read, whole, result) {
            let d = choose|d: Decoded<T>| #[trigger]
                reads_as(read, whole, d) && result == parsed(whole, d);
            assert(reads_as(read, stdout, d));
        }
        if parses_to(read, stdout, result) {
            let d = choose|d: Decoded<T>| #[trigger]
                reads_as(read, stdout, d) && result == parsed(stdout, d);
            assert(reads_as(read, whole, d));
        }
    }
}

/// With a decoder that makes one thing of one line, what a command prints has one result, whatever
/// white space is around it, and also where that result is an error.
pub proof fn law_one_answer_whatever_the_white_space<T, F: Fn(&str) -> Decoded<T>>(
    before: Seq<char>,
    stdout: Seq<char>,
    after: Seq<char>,
    read: F,
    padded: Result<T, Seq<char>>,
    plain: Result<T, Seq<char>>,
)
    requires
        forall|i: int| 0 <= i < before.len() ==> is_white_space(#[trigger] before[i]),
        forall|i: int| 0 <= i < after.len() ==> is_white_space(#[trigger] after[i]),
        forall|k: &str, l: &str, c: Decoded<T>, d: Decoded<T>|
            k@ == l@ && #[trigger] call_ensures(read, (k,), c) && #[trigger] call_ensures(
                read,
                (l,),
                d,
            ) ==> c == d,
        parses_to(read, before + stdout + after, padded),
        parses_to(read, stdout, plain),
    ensures
        padded == plain,
{
    let decoded = choose|d: Decoded<T>| reads_as(read, stdout, d);
    law_white_space_around_an_answer(before, stdout, after, read, decoded, padded);
}

/// White space in front is trimmed.
proof fn lemma_trim_start_skips(before: Seq<char>, s: Seq<char>)
    requires
        forall|i: int| 0 <= i < before.len() ==> is_white_space(#[trigger] before[i]),
    ensures
        trim_start(before + s) == trim_start(s),
    decreases before.len(),
{
    if before.len() > 0 {
        assert((before + s)[0] == before[0]);
        assert((before + s).drop_first() =~= before.drop_first() + s);
        lemma_trim_start_skips(before.drop_first(), s);
    } else {
        assert(before + s =~= s);
    }
}

/// White space behind is trimmed, also where all in front of it is white space.
proof fn lemma_trim_end_skips(s: Seq<char>, after: Seq<char>)
    requires
        forall|i: int| 0 <= i < after.len() ==> is_white_space(#[trigger] after[i]),
    ensures
        trimmed(s + after) == trimmed(s),
    decreases s.len(),
{
    if s.len() > 0 && is_white_space(s[0]) {
        assert((s + after)[0] == s[0]);
        assert((s + after).drop_first() =~= s.drop_first() + after);
        lemma_trim_end_skips(s.drop_first(), after);
    } else if s.len() > 0 {
        assert((s + after)[0] == s[0]);
        lemma_trim_end_of_sum(s, after);
    } else {
        assert(s + after =~= after);
        lemma_trim_start_of_space(after);
    }
}

/// White space at the end is trimmed.
proof fn lemma_trim_end_of_sum(s: Seq<char>, after: Seq<char>)
    requires
        forall|i: int| 0 <= i < after.len() ==> is_white_space(#[trigger] after[i]),
    ensures
        trim_end(s + after) == trim_end(s),
    decreases after.len(),
{
    if after.len() > 0 {
        assert((s + after).last() == after.last());
        assert((s + after).drop_last() =~= s + after.drop_last());
        lemma_trim_end_of_sum(s, after.drop_last());
    } else {
        assert(s + after =~= s);
    }
}

/// Of white space nothing is left.
proof fn lemma_trim_start_of_space(s: Seq<char>)
    requires
        forall|i: int| 0 <= i < s.len() ==> is_white_space(#[trigger] s[i]),
    ensures
        trim_start(s) == Seq::<char>::empty(),
    decreases s.len(),
{
    if s.len() > 0 {
        lemma_trim_start_of_space(s.drop_first());
    } else {
        assert(s =~= Seq::<char>::empty());
    }
}

/// A slash at the end of a server's address makes no difference to that of a catalog.
pub proof fn law_end_slash_makes_no_difference(server: Seq<char>, release: Seq<char>)
    ensures
        catalog_address(server.push('/'), release) == catalog_address(server, release),
{
    assert(server.push('/').drop_last() =~= server);
}

} // verus!
