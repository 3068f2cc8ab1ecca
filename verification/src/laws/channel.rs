//! What is known of a channel: its configuration, its lock, its catalog and its recipes.

use crate::app_info::AppKind;
use crate::backend::appstream::{
    catalog_address, catalog_root, fresh_cache, CacheView, CatalogListing, Components,
};
use crate::backend::json_types::{
    LockEntry, LockView, ProminConfig, ProminConfigView, RecipesResult, Reply,
};
use crate::backend::promin::{
    channel, config_or_default, recipes_found, BackendView, ChannelFiles,
};
use crate::laws::answers::{law_answer_that_counts, reports_failure};
use crate::laws::text::{is_blank, law_paths_are_joined, law_slashes_at_the_end};
use crate::text::without_end_slashes;
use vstd::prelude::*;

verus! {

/// The backend after its caches were filled.
pub open spec fn loaded(
    backend: BackendView,
    files: Option<ChannelFiles>,
    components: Components,
    recipes: Seq<Seq<char>>,
) -> BackendView {
    backend.reread(files).with_components(components).with_recipes(recipes)
}

/// After the channel was read anew the lock in force is the one that was found, and there is none
/// where none was found, whatever lock was in force before. The configuration in force is the one
/// that was found; where none was found the old one stays. Where the channel was not read anew, both
/// stay. All else that the backend was made with stays too.
pub proof fn law_channel_in_force_after_loading(
    backend: BackendView,
    files: Option<ChannelFiles>,
    components: Components,
    recipes: Seq<Seq<char>>,
)
    ensures
        ({
            let after = loaded(backend, files, components, recipes);
            &&& files matches Some(found) ==> match found.lock {
                Some(lock) => after.lock == Some(lock@),
                None => after.lock is None,
            }
            &&& files matches Some(found) ==> match found.config {
                Some(config) => after.config == config@,
                None => after.config == backend.config,
            }
            &&& files is None ==> after.lock == backend.lock && after.config == backend.config
            &&& after.locale == backend.locale
            &&& after.prefix == backend.prefix
            &&& after.cache.source_id == backend.cache.source_id
            &&& after.cache.source_name == backend.cache.source_name
            &&& after.cache.paths == backend.cache.paths
            &&& after.cache.icons_paths == backend.cache.icons_paths
            &&& after.cache.locale == backend.cache.locale
        }),
{
}

/// Where the channel is read anew, neither the lock that was in force nor the components that were
/// known make a difference to what comes out.
pub proof fn law_loading_forgets_what_was_known(
    a: BackendView,
    b: BackendView,
    files: Option<ChannelFiles>,
    components: Components,
    recipes: Seq<Seq<char>>,
)
    requires
        files is Some,
        a.locale == b.locale,
        a.prefix == b.prefix,
        a.config == b.config || files->0.config is Some,
        a.cache == (CacheView {
            infos: a.cache.infos,
            pkgnames: a.cache.pkgnames,
            ..b.cache
        }),
    ensures
        loaded(a, files, components, recipes) == loaded(b, files, components, recipes),
{
}

/// After loading, the cache knows of each component that was read what was read, and of each package
/// the components that were read. Besides it knows of the recipes that have no component and that the
/// lock in force, if there is one, pins: such a package is its own component, and what is known of it
/// is that it is no application, is called by its own name and is carried by itself, unless a
/// component of that name was read. It knows of nothing else.
pub proof fn law_cache_after_loading(
    backend: BackendView,
    files: Option<ChannelFiles>,
    components: Components,
    recipes: Seq<Seq<char>>,
    name: Seq<char>,
)
    ensures
        ({
            let after = loaded(backend, files, components, recipes);
            let read = components.pkgnames@.contains_key(name);
            let offered = after.lock is None || after.lock->0.packages.contains_key(name);
            let added = recipes.contains(name) && offered && !read;
            &&& after.cache.pkgnames.contains_key(name) <==> read || added
            &&& read ==> after.cache.pkgnames[name] == components.pkgnames@[name]@
            &&& added ==> after.cache.pkgnames[name] == seq![name]
            &&& after.cache.infos.contains_key(name) <==> components.infos@.contains_key(name)
                || added
            &&& components.infos@.contains_key(name) ==> after.cache.infos[name]
                == components.infos@[name]@
            &&& added && !components.infos@.contains_key(name) ==> {
                &&& after.cache.infos[name].kind == AppKind::Addon
                &&& after.cache.infos[name].name == name
                &&& after.cache.infos[name].pkgnames == seq![name]
                &&& after.cache.infos[name].source_id == backend.cache.source_id
                &&& after.cache.infos[name].source_name == backend.cache.source_name
            }
        }),
{
}

/// Adding recipes to a backend changes nothing but its cache. The packages and the components that
/// the cache knows stay as they are; what comes in are the recipes without a component that the lock,
/// if there is one, pins.
pub proof fn law_adding_recipes(
    backend: BackendView,
    recipes: Seq<Seq<char>>,
    name: Seq<char>,
)
    ensures
        ({
            let after = backend.with_recipes(recipes);
            let known = backend.cache.pkgnames.contains_key(name);
            let added = recipes.contains(name) && !known && (backend.lock is None
                || backend.lock->0.packages.contains_key(name));
            &&& after == (BackendView { cache: after.cache, ..backend })
            &&& after.cache == (CacheView {
                infos: after.cache.infos,
                pkgnames: after.cache.pkgnames,
                ..backend.cache
            })
            &&& after.cache.pkgnames.contains_key(name) <==> known || added
            &&& known ==> after.cache.pkgnames[name] == backend.cache.pkgnames[name]
            &&& added ==> after.cache.pkgnames[name] == seq![name]
            &&& after.cache.infos.contains_key(name) <==> backend.cache.infos.contains_key(name)
                || added
            &&& backend.cache.infos.contains_key(name) ==> after.cache.infos[name]
                == backend.cache.infos[name]
            &&& added && !backend.cache.infos.contains_key(name) ==> {
                &&& after.cache.infos[name].kind == AppKind::Addon
                &&& after.cache.infos[name].name == name
                &&& after.cache.infos[name].pkgnames == seq![name]
                &&& after.cache.infos[name].source_id == backend.cache.source_id
                &&& after.cache.infos[name].source_name == backend.cache.source_name
            }
        }),
{
}

/// The recipes are those that the client listed; there are none where the command failed, printed
/// nothing, reported a failure, or printed what cannot be read.
pub proof fn law_recipes_that_were_found(run: Result<Reply<RecipesResult>, String>)
    ensures
        (run is Ok && !is_blank(run->Ok_0.stdout@) && !reports_failure(run->Ok_0.decoded.envelope)
            && run->Ok_0.decoded.payload is Ok) ==> recipes_found(run)
            == run->Ok_0.decoded.payload->Ok_0.recipes.deep_view(),
        !(run is Ok && !is_blank(run->Ok_0.stdout@) && !reports_failure(run->Ok_0.decoded.envelope)
            && run->Ok_0.decoded.payload is Ok) ==> recipes_found(run).len() == 0,
{
    law_answer_that_counts(run);
}

/// The channel in force is the configured one; where none is configured it is that of the lock, and
/// where there is none either it is empty.
pub proof fn law_channel(config: ProminConfigView, lock: Option<LockView>)
    ensures
        config.release.len() > 0 ==> channel(config, lock) == config.release,
        config.release.len() == 0 && lock is Some && lock->0.release is Some ==> channel(
            config,
            lock,
        ) == lock->0.release->0,
        config.release.len() == 0 && (lock is None || lock->0.release is None) ==> channel(
            config,
            lock,
        ).len() == 0,
{
}

/// A configuration that was found is in force as it is. Where none was found, the public server is
/// used, with a timeout of half a minute, and no channel is chosen.
pub proof fn law_configuration_in_force(config: Option<ProminConfig>)
    ensures
        config matches Some(found) ==> config_or_default(config) == found@,
        config is None ==> {
            &&& config_or_default(config).servers == seq!["https://cache.svitlolinux.org"@]
            &&& !config_or_default(config).offline
            &&& config_or_default(config).timeout == 30
            &&& config_or_default(config).release.len() == 0
        },
{
}

/// The store name of a pinned package is the recorded one; where none is recorded it is made up of the
/// hash, the name and the version.
pub proof fn law_store_name_of_a_pin(entry: LockEntry, name: Seq<char>)
    ensures
        entry.store_name matches Some(recorded) ==> entry@.store_name(name) == recorded@,
        entry.store_name is None ==> entry@.store_name(name) == entry.input_hash@ + "-"@ + name
            + "-"@ + entry.version@,
{
}

/// The files of a new cache are the entries of the directory with XML files, as far as it can be
/// read, and then those of the directory with YAML files, as far as that can be read: each of them
/// once, in the order in which they were found, and no others. Whether one directory can be read
/// makes no difference to the entries of the other.
pub proof fn law_files_of_a_catalog(
    locale: Seq<char>,
    release: Seq<char>,
    listing: CatalogListing,
    i: int,
)
    ensures
        ({
            let paths = fresh_cache(locale, release, listing).paths;
            let xml = if listing.xml is Some {
                listing.xml->0@.len()
            } else {
                0
            };
            let yaml = if listing.yaml is Some {
                listing.yaml->0@.len()
            } else {
                0
            };
            &&& paths.len() == xml + yaml
            &&& 0 <= i < xml ==> paths[i] == listing.xml->0@[i]
            &&& 0 <= i < yaml ==> paths[xml + i] == listing.yaml->0@[i]
        }),
{
}

/// The directory of a catalog lies under the directory of all catalogs and bears the name of the
/// release.
pub proof fn law_directory_of_a_catalog(release: Seq<char>)
    ensures
        release.len() == 0 || release[0] != '/' ==> catalog_root(release)
            == "/var/lib/svitlo-store/appstream"@ + "/"@ + release,
        release.len() > 0 && release[0] == '/' ==> catalog_root(release) == release,
{
    reveal_strlit("/var/lib/svitlo-store/appstream");
    law_paths_are_joined("/var/lib/svitlo-store/appstream"@, release);
}

/// A new cache has the icon directory of its catalog where that exists, and none where it does not.
/// It belongs to this source, is for the locale that was asked for, and knows of nothing yet.
pub proof fn law_new_cache(locale: Seq<char>, release: Seq<char>, listing: CatalogListing)
    ensures
        ({
            let cache = fresh_cache(locale, release, listing);
            &&& !listing.has_icons ==> cache.icons_paths.len() == 0
            &&& listing.has_icons ==> cache.icons_paths.len() == 1
            &&& listing.has_icons && release.len() > 0 && release[0] != '/' && release.last() != '/'
                ==> cache.icons_paths[0] == "/var/lib/svitlo-store/appstream"@ + "/"@ + release
                + "/"@ + "icons"@
            &&& listing.has_icons && release.len() > 0 && release[0] == '/' && release.last() != '/'
                ==> cache.icons_paths[0] == release + "/"@ + "icons"@
            &&& listing.has_icons && release.len() == 0 ==> cache.icons_paths[0]
                == "/var/lib/svitlo-store/appstream"@ + "/"@ + "icons"@
            &&& cache.source_id == "promin"@
            &&& cache.source_name == "Svitlo"@
            &&& cache.locale == locale
            &&& forall|name: Seq<char>| !#[trigger] cache.infos.contains_key(name)
            &&& forall|name: Seq<char>| !#[trigger] cache.pkgnames.contains_key(name)
        }),
{
    let root = catalog_root(release);
    let base = "/var/lib/svitlo-store/appstream"@;
    law_directory_of_a_catalog(release);
    reveal_strlit("icons");
    reveal_strlit("/");
    law_paths_are_joined(root, "icons"@);
    if release.len() == 0 {
        assert(root =~= base.push('/'));
        law_paths_are_joined(base, "icons"@);
    } else {
        assert(root.last() == release.last());
    }
}

/// The components of a package are those under its name, and none where nothing is under it.
pub proof fn law_components_of_a_package(cache: CacheView, name: Seq<char>)
    ensures
        cache.pkgnames.contains_key(name) ==> cache.ids(name) == cache.pkgnames[name],
        !cache.pkgnames.contains_key(name) ==> cache.ids(name).len() == 0,
{
}

/// The address of a catalog is made up of the server without the slashes at its end, and the release.
pub proof fn law_address_of_a_catalog(server: Seq<char>, release: Seq<char>, slashes: Seq<char>)
    requires
        server.len() == 0 || server.last() != '/',
        forall|i: int| 0 <= i < slashes.len() ==> #[trigger] slashes[i] == '/',
    ensures
        catalog_address(server + slashes, release) == server + "/releases/"@ + release
            + "/catalog"@,
{
    let whole = server + slashes;
    let kept = without_end_slashes(whole);
    law_slashes_at_the_end(whole);
    if kept.len() > server.len() {
        assert(kept.last() == whole[kept.len() - 1]);
        assert(whole[kept.len() - 1] == slashes[kept.len() - 1 - server.len()]);
    } else if kept.len() < server.len() {
        assert(whole[server.len() - 1] == server.last());
    }
    assert(kept =~= server);
}

} // verus!
