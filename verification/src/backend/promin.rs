//! The packages of a promin channel.

use crate::app_info::{own_info, AppId, AppInfo, AppKind};
use crate::backend::appstream::{
    build_cache, fresh_cache, ids_for_pkg, AppstreamCache, CacheView, CatalogListing, Components,
    IdSet,
};
use crate::backend::command::{Request, PREFIX_PLACE};
use crate::backend::json_types::{
    answer, answered, default_config, text_result, AcceptEulaResult, ListResult, Lock, LockView,
    ProminConfig, ProminConfigView, RecipesResult, Reply, StatusResult,
};
use crate::backend::{Icon, IconView, Package, PackageView};
use crate::name_map::NameMap;
use crate::text::{
    after_first, first_at, join_path, joined_path, lemma_after_first, occurs_at, same_text,
    text_after,
};
use std::sync::Arc;
use vstd::prelude::*;
use vstd::string::*;

verus! {

/// The root of the client in an installed system.
pub const PROMIN_ROOT: &'static str = "/promin";

/// The name of the icon of a package without a component.
pub const GENERIC_ICON: &'static str = "package-x-generic";

/// The size of the icon of a package without a component.
pub const GENERIC_ICON_SIZE: u16 = 128;

/// The version in a store name of the form `<hash>-<name>-<version>`: what follows the first
/// `-<name>-`. Empty where there is no such part.
pub open spec fn stored_version(store_name: Seq<char>, name: Seq<char>) -> Seq<char> {
    after_first(store_name, "-"@ + name + "-"@)
}

/// The version in a store name of the form `<hash>-<name>-<version>`.
pub fn version_from_store_name(store_name: &str, name: &str) -> (r: String)
    ensures
        r@ == stored_version(store_name@, name@),
        forall|i: int| #[trigger]
            first_at(store_name@, "-"@ + name@ + "-"@, i) ==> r@ == store_name@.skip(
                i + name@.len() + 2,
            ),
        (forall|i: int| !#[trigger] occurs_at(store_name@, "-"@ + name@ + "-"@, i)) ==> r@
            == Seq::<char>::empty(),
{
    let needle = "-".to_string().concat(name).concat("-");
    proof {
        reveal_strlit("-");
        assert forall|i: int| #[trigger] first_at(store_name@, needle@, i) implies stored_version(
            store_name@,
            name@,
        ) == store_name@.skip(i + name@.len() + 2) by {
            lemma_after_first(store_name@, needle@, i);
        }
    }
    match text_after(store_name, needle.as_str()) {
        Some(version) => version.to_string(),
        None => String::new(),
    }
}

/// The channel that is in force: the configured one, else that of the lock, else none.
pub open spec fn channel(config: ProminConfigView, lock: Option<LockView>) -> Seq<char> {
    if config.release.len() > 0 {
        config.release
    } else if lock is Some && lock->0.release is Some {
        lock->0.release->0
    } else {
        Seq::empty()
    }
}

/// The configuration in force where `config` was found on disk.
pub open spec fn config_or_default(config: Option<ProminConfig>) -> ProminConfigView {
    match config {
        Some(c) => c@,
        None => default_config(),
    }
}

/// The channel that is in force, where `config` and `lock` were found on disk.
pub fn channel_release(config: &Option<ProminConfig>, lock: &Option<Lock>) -> (r: String)
    ensures
        r@ == channel(config_or_default(*config), lock.deep_view()),
{
    if let Some(c) = config {
        if !c.release.as_str().is_empty() {
            return c.release.clone();
        }
    }
    if let Some(l) = lock {
        if let Some(release) = &l.release {
            return release.clone();
        }
    }
    String::new()
}

/// The card of a package that has no component: it is shown under its own name, with a generic
/// icon.
pub open spec fn generic_card(
    cache: CacheView,
    name: Seq<char>,
    version: Seq<char>,
) -> PackageView {
    PackageView {
        id: name,
        icon: IconView::Named { name: GENERIC_ICON@, size: GENERIC_ICON_SIZE },
        info: own_info(cache.source_id, cache.source_name, name, AppKind::DesktopApplication),
        version,
        extra: Map::empty(),
    }
}

/// The card of the component `id` of the package `name`. A component without metadata is shown as
/// a package without a component.
pub open spec fn component_card(
    cache: CacheView,
    name: Seq<char>,
    version: Seq<char>,
    id: Seq<char>,
) -> PackageView {
    if cache.infos.contains_key(id) {
        PackageView {
            id,
            icon: IconView::Component,
            info: cache.infos[id],
            version,
            extra: Map::empty(),
        }
    } else {
        generic_card(cache, name, version)
    }
}

/// The cards of a package: one for each of its components, or a generic one where it has none.
pub open spec fn cards(cache: CacheView, name: Seq<char>, version: Seq<char>) -> Seq<PackageView> {
    if cache.ids(name).len() == 0 {
        seq![generic_card(cache, name, version)]
    } else {
        cache.ids(name).map_values(|id: Seq<char>| component_card(cache, name, version, id))
    }
}

/// The version of an installed package: that of the lock, else that in the store name.
pub open spec fn installed_version(
    lock: Option<LockView>,
    name: Seq<char>,
    store_name: Seq<char>,
) -> Seq<char> {
    if lock is Some && lock->0.packages.contains_key(name) {
        lock->0.packages[name].version
    } else {
        stored_version(store_name, name)
    }
}

/// The cards of one installed package.
pub open spec fn installed_card(backend: BackendView) -> spec_fn(
    (Seq<char>, String),
) -> Seq<PackageView> {
    |p: (Seq<char>, String)| cards(backend.cache, p.0, installed_version(backend.lock, p.0, p.1@))
}

/// The cards of the packages that `list` holds, in ascending order of their names.
pub open spec fn installed_cards(backend: BackendView, list: ListResult) -> Seq<PackageView> {
    list.packages.pairs().flat_map(installed_card(backend))
}

/// `lock` pins another build of the package `name` than `store_name`.
pub open spec fn outdated(lock: LockView, name: Seq<char>, store_name: Seq<char>) -> bool {
    lock.packages.contains_key(name) && lock.packages[name].store_name(name) != store_name
}

/// The key under which a card tells the version that is installed.
pub open spec fn installed_key(name: Seq<char>) -> Seq<char> {
    name + "_installed"@
}

/// The same card, with the installed version told.
pub open spec fn with_installed(
    card: PackageView,
    name: Seq<char>,
    store_name: Seq<char>,
) -> PackageView {
    PackageView {
        extra: card.extra.insert(installed_key(name), stored_version(store_name, name)),
        ..card
    }
}

/// The cards of the update of one installed package: those of the version that `lock` pins, where
/// it pins another build than the installed one.
pub open spec fn update_card(cache: CacheView, lock: LockView) -> spec_fn(
    (Seq<char>, String),
) -> Seq<PackageView> {
    |p: (Seq<char>, String)|
        if outdated(lock, p.0, p.1@) {
            cards(cache, p.0, lock.packages[p.0].version).map_values(
                |card: PackageView| with_installed(card, p.0, p.1@),
            )
        } else {
            Seq::empty()
        }
}

/// The cards of the updates of the packages that `list` holds. There are none without a lock.
pub open spec fn update_cards(backend: BackendView, list: ListResult) -> Seq<PackageView> {
    match backend.lock {
        Some(lock) => list.packages.pairs().flat_map(update_card(backend.cache, lock)),
        None => Seq::empty(),
    }
}

/// The channel offers the package `name`: a lock offers the packages that it pins, and no others.
/// Without a lock all are offered.
pub open spec fn in_channel(lock: Option<LockView>, name: Seq<char>) -> bool {
    match lock {
        Some(l) => l.packages.contains_key(name),
        None => true,
    }
}

/// The package `name` is one of `recipes`, in the channel, and without a component in `cache`.
pub open spec fn is_added(
    cache: CacheView,
    lock: Option<LockView>,
    recipes: Seq<Seq<char>>,
    name: Seq<char>,
) -> bool {
    recipes.contains(name) && in_channel(lock, name) && !cache.pkgnames.contains_key(name)
}

/// What is told of an added package, where its name is not the identifier of a component already.
/// It is no application, so that search and categories leave it out, but it can be installed by its
/// name.
pub open spec fn added_infos(
    cache: CacheView,
    lock: Option<LockView>,
    recipes: Seq<Seq<char>>,
) -> Map<Seq<char>, crate::app_info::AppInfoView> {
    Map::new(
        |name: Seq<char>| is_added(cache, lock, recipes, name),
        |name: Seq<char>| own_info(cache.source_id, cache.source_name, name, AppKind::Addon),
    )
}

/// The components of an added package: itself.
pub open spec fn added_ids(
    cache: CacheView,
    lock: Option<LockView>,
    recipes: Seq<Seq<char>>,
) -> Map<Seq<char>, Seq<Seq<char>>> {
    Map::new(
        |name: Seq<char>| is_added(cache, lock, recipes, name),
        |name: Seq<char>| seq![name],
    )
}

/// `cache` with the packages among `recipes` that it lacks. What it has stays: where the name of an
/// added package is the identifier of a component, what is known of that component is kept.
pub open spec fn augmented(
    cache: CacheView,
    lock: Option<LockView>,
    recipes: Seq<Seq<char>>,
) -> CacheView {
    CacheView {
        infos: added_infos(cache, lock, recipes).union_prefer_right(cache.infos),
        pkgnames: cache.pkgnames.union_prefer_right(added_ids(cache, lock, recipes)),
        ..cache
    }
}

/// Adding one more recipe to those that are added.
proof fn lemma_augmented_push(
    cache: CacheView,
    lock: Option<LockView>,
    recipes: Seq<Seq<char>>,
    name: Seq<char>,
)
    ensures
        in_channel(lock, name) && !augmented(cache, lock, recipes).pkgnames.contains_key(name)
            ==> augmented(cache, lock, recipes.push(name)) == (CacheView {
            infos: if augmented(cache, lock, recipes).infos.contains_key(name) {
                augmented(cache, lock, recipes).infos
            } else {
                augmented(cache, lock, recipes).infos.insert(
                    name,
                    own_info(cache.source_id, cache.source_name, name, AppKind::Addon),
                )
            },
            pkgnames: augmented(cache, lock, recipes).pkgnames.insert(name, seq![name]),
            ..cache
        }),
        !in_channel(lock, name) || augmented(cache, lock, recipes).pkgnames.contains_key(name)
            ==> augmented(cache, lock, recipes.push(name)) == augmented(cache, lock, recipes),
{
    let more = recipes.push(name);
    assert forall|n: Seq<char>| #[trigger]
        more.contains(n) == (recipes.contains(n) || n == name) by {
        if recipes.contains(n) {
            let k = choose|k: int| 0 <= k < recipes.len() && recipes[k] == n;
            assert(more[k] == n);
        }
        assert(more[recipes.len() as int] == name);
    }
    let base = augmented(cache, lock, recipes);
    let next = augmented(cache, lock, more);
    assert(base.pkgnames.contains_key(name) <==> cache.pkgnames.contains_key(name) || is_added(
        cache,
        lock,
        recipes,
        name,
    ));
    if in_channel(lock, name) && !base.pkgnames.contains_key(name) {
        if base.infos.contains_key(name) {
            assert(next.infos =~= base.infos);
        } else {
            assert(next.infos =~= base.infos.insert(
                name,
                own_info(cache.source_id, cache.source_name, name, AppKind::Addon),
            ));
        }
        assert(next.pkgnames =~= base.pkgnames.insert(name, seq![name]));
    } else {
        assert(next.infos =~= base.infos);
        assert(next.pkgnames =~= base.pkgnames);
    }
}

/// Adding no recipe changes nothing.
proof fn lemma_augmented_none(cache: CacheView, lock: Option<LockView>)
    ensures
        augmented(cache, lock, Seq::empty()) == cache,
{
    assert(augmented(cache, lock, Seq::empty()).infos =~= cache.infos);
    assert(augmented(cache, lock, Seq::empty()).pkgnames =~= cache.pkgnames);
}

/// The packages that `run` found, as the client answered it.
pub open spec fn recipes_found(run: Result<Reply<RecipesResult>, String>) -> Seq<Seq<char>> {
    match answered(run) {
        Ok(r) => r.recipes.deep_view(),
        Err(_) => Seq::empty(),
    }
}

/// What was found on disk when the channel was read anew.
#[derive(Debug)]
pub struct ChannelFiles {
    /// The configuration, where there is one that can be read.
    pub config: Option<ProminConfig>,
    /// The lock, where there is one that can be read.
    pub lock: Option<Lock>,
}

/// The files in which the client keeps its channel.
#[derive(Debug, Clone)]
pub struct ChannelPaths {
    pub config: String,
    pub lock: String,
}

/// The files in which the client whose root is `prefix` keeps its channel.
pub fn channel_paths(prefix: &str) -> (r: ChannelPaths)
    ensures
        r.config@ == joined_path(prefix@, "config.json"@),
        r.lock@ == joined_path(prefix@, "lock.json"@),
{
    ChannelPaths {
        config: join_path(prefix, "config.json"),
        lock: join_path(prefix, "lock.json"),
    }
}

/// The source of the packages of one channel.
#[derive(Debug)]
pub struct ProminBackend {
    locale: String,
    prefix: String,
    config: ProminConfig,
    lock: Option<Lock>,
    appstream_caches: Vec<AppstreamCache>,
}

/// The contents of a [`ProminBackend`].
#[verifier::ext_equal]
pub struct BackendView {
    pub locale: Seq<char>,
    /// The root of the client.
    pub prefix: Seq<char>,
    pub config: ProminConfigView,
    pub lock: Option<LockView>,
    /// The cache of the channel.
    pub cache: CacheView,
}

impl View for ProminBackend {
    type V = BackendView;

    closed spec fn view(&self) -> BackendView {
        BackendView {
            locale: self.locale@,
            prefix: self.prefix@,
            config: self.config@,
            lock: self.lock.deep_view(),
            cache: self.appstream_caches@[0]@,
        }
    }
}

impl BackendView {
    /// The same backend after the channel was read anew. Where no configuration was found the old
    /// one stays; the lock does not.
    pub open spec fn reread(self, files: Option<ChannelFiles>) -> BackendView {
        match files {
            Some(found) => BackendView {
                config: match found.config {
                    Some(c) => c@,
                    None => self.config,
                },
                lock: found.lock.deep_view(),
                ..self
            },
            None => self,
        }
    }

    /// The same backend with `recipes` added to its cache.
    pub open spec fn with_recipes(self, recipes: Seq<Seq<char>>) -> BackendView {
        BackendView { cache: augmented(self.cache, self.lock, recipes), ..self }
    }

    /// The same backend with `components` in its cache.
    pub open spec fn with_components(self, components: Components) -> BackendView {
        BackendView { cache: self.cache.with_components(components), ..self }
    }
}

/// What is to be done to find the updates.
#[derive(Debug)]
pub enum UpdatesStep {
    /// The updates are known.
    Done(Vec<Package>),
    /// The client is to be asked first.
    Ask(Request),
}

impl ProminBackend {
    /// There is one cache for the channel.
    #[verifier::type_invariant]
    closed spec fn wf(&self) -> bool {
        self.appstream_caches@.len() == 1
    }

    /// The backend of an installed system.
    pub fn new(
        locale: &str,
        config: Option<ProminConfig>,
        lock: Option<Lock>,
        listing: CatalogListing,
    ) -> (r: Result<Self, String>)
        ensures
            r is Ok,
            r matches Ok(b) ==> b@ == (BackendView {
                locale: locale@,
                prefix: PROMIN_ROOT@,
                config: config_or_default(config),
                lock: lock.deep_view(),
                cache: fresh_cache(
                    locale@,
                    channel(config_or_default(config), lock.deep_view()),
                    listing,
                ),
            }),
    {
        Self::with_prefix(locale, PROMIN_ROOT, config, lock, listing)
    }

    /// The backend of the client whose root is `prefix`. `config` and `lock` are what was found
    /// there, and `listing` what was found of the catalog of the channel in force.
    pub fn with_prefix(
        locale: &str,
        prefix: &str,
        config: Option<ProminConfig>,
        lock: Option<Lock>,
        listing: CatalogListing,
    ) -> (r: Result<Self, String>)
        ensures
            r is Ok,
            r matches Ok(b) ==> b@ == (BackendView {
                locale: locale@,
                prefix: prefix@,
                config: config_or_default(config),
                lock: lock.deep_view(),
                cache: fresh_cache(
                    locale@,
                    channel(config_or_default(config), lock.deep_view()),
                    listing,
                ),
            }),
    {
        let release = channel_release(&config, &lock);
        let mut appstream_caches: Vec<AppstreamCache> = Vec::new();
        appstream_caches.push(build_cache(locale, release.as_str(), listing));
        let config = match config {
            Some(c) => c,
            None => ProminConfig::default(),
        };
        Ok(
            ProminBackend {
                locale: locale.to_string(),
                prefix: prefix.to_string(),
                config,
                lock,
                appstream_caches,
            },
        )
    }

    /// The locale for which the components are read.
    pub fn locale(&self) -> (r: &str)
        ensures
            r@ == self@.locale,
    {
        self.locale.as_str()
    }

    /// The root of the client.
    pub fn prefix(&self) -> (r: &str)
        ensures
            r@ == self@.prefix,
    {
        self.prefix.as_str()
    }

    /// The configuration in force.
    pub fn config(&self) -> (r: &ProminConfig)
        ensures
            r@ == self@.config,
    {
        &self.config
    }

    /// The lock in force.
    pub fn lock(&self) -> (r: &Option<Lock>)
        ensures
            r.deep_view() == self@.lock,
    {
        &self.lock
    }

    /// The caches: one for the channel.
    pub fn info_caches(&self) -> (r: &[AppstreamCache])
        ensures
            r@.len() == 1,
            r@[0]@ == self@.cache,
    {
        proof {
            use_type_invariant(self);
        }
        self.appstream_caches.as_slice()
    }

    /// The cache of the channel.
    pub fn cache(&self) -> (r: &AppstreamCache)
        ensures
            r@ == self@.cache,
    {
        proof {
            use_type_invariant(self);
        }
        &self.appstream_caches[0]
    }

    /// The arguments with which the client is run to answer `request`.
    pub fn command_line(&self, request: &Request) -> (r: Vec<String>)
        ensures
            r.deep_view() == seq!["--prefix"@, self@.prefix, "--json"@] + request@,
            r@.len() > PREFIX_PLACE,
            r@[PREFIX_PLACE as int]@ == self@.prefix,
    {
        request.command_line(self.prefix.as_str())
    }

    /// The card of a package that has no component.
    pub fn generic_package(&self, name: &str, version: String) -> (r: Package)
        ensures
            r@ == generic_card(self@.cache, name@, version@),
    {
        let cache = self.cache();
        let r = Package {
            id: AppId::new(name),
            icon: Icon::Named { name: GENERIC_ICON.to_string(), size: GENERIC_ICON_SIZE },
            info: Arc::new(
                AppInfo::of_package(
                    cache.source_id.as_str(),
                    cache.source_name.as_str(),
                    name,
                    AppKind::DesktopApplication,
                ),
            ),
            version,
            extra: NameMap::new(),
        };
        assert(r@.extra =~= Map::<Seq<char>, Seq<char>>::empty());
        r
    }

    /// The cards of the package `name`: those of its components, or a generic one.
    pub fn packages_for(&self, name: &str, version: String) -> (r: Vec<Package>)
        ensures
            r.deep_view() == cards(self@.cache, name@, version@),
    {
        let cache = self.cache();
        let ids = ids_for_pkg(cache, name);
        let ghost shown = cache@.ids(name@);
        assert(ids@.map_values(|id: &AppId| id@).len() == ids@.len());
        let mut out: Vec<Package> = Vec::new();
        if ids.len() == 0 {
            out.push(self.generic_package(name, version));
            assert(out.deep_view() =~= seq![generic_card(self@.cache, name@, version@)]);
            return out;
        }
        let mut i: usize = 0;
        while i < ids.len()
            invariant
                i <= ids@.len(),
                shown == ids@.map_values(|id: &AppId| id@),
                cache@ == self@.cache,
                out@.len() == i,
                forall|j: int|
                    0 <= j < i ==> (#[trigger] out@[j])@ == component_card(
                        self@.cache,
                        name@,
                        version@,
                        shown[j],
                    ),
            decreases ids@.len() - i,
        {
            let id = ids[i];
            assert(shown[i as int] == id@);
            match cache.infos.get(id.as_str()) {
                Some(info) => {
                    let card = Package {
                        id: id.clone(),
                        icon: Icon::Component,
                        info: info.clone(),
                        version: version.clone(),
                        extra: NameMap::new(),
                    };
                    assert(card@.extra =~= Map::<Seq<char>, Seq<char>>::empty());
                    out.push(card);
                },
                None => {
                    out.push(self.generic_package(name, version.clone()));
                },
            }
            i = i + 1;
        }
        assert(out.deep_view() =~= cards(self@.cache, name@, version@));
        out
    }

    /// The request that tells which packages are installed.
    pub fn list_request() -> (r: Request)
        ensures
            r@ == seq!["list"@],
    {
        Request::List
    }

    /// The request that tells the state of the channel.
    pub fn status_request() -> (r: Request)
        ensures
            r@ == seq!["status"@],
    {
        Request::Status
    }

    /// The request that tells which packages there are.
    pub fn recipes_request() -> (r: Request)
        ensures
            r@ == seq!["recipes"@],
    {
        Request::Recipes
    }

    /// The installed packages, as the client answered [`Self::list_request`].
    pub fn installed_map(run: Result<Reply<ListResult>, String>) -> (r: Result<ListResult, String>)
        ensures
            text_result(r) == answered(run),
    {
        answer(run)
    }

    /// The request that records the consent to the terms of `channel`.
    pub fn accept_eula_request(channel: &str) -> (r: Request)
        ensures
            r@ == seq!["accept-eula"@, channel@],
    {
        Request::AcceptEula { channel: channel.to_string() }
    }

    /// The recorded consent, as the client answered it.
    pub fn accept_eula(run: Result<Reply<AcceptEulaResult>, String>) -> (r: Result<
        AcceptEulaResult,
        String,
    >)
        ensures
            text_result(r) == answered(run),
    {
        answer(run)
    }

    /// The state of the channel, as the client answered [`Self::status_request`].
    pub fn status(run: Result<Reply<StatusResult>, String>) -> (r: Result<StatusResult, String>)
        ensures
            text_result(r) == answered(run),
    {
        answer(run)
    }

    /// The packages that there are, as the client answered [`Self::recipes_request`]; none where it
    /// did not.
    pub fn all_recipes(run: Result<Reply<RecipesResult>, String>) -> (r: Vec<String>)
        ensures
            r.deep_view() == recipes_found(run),
    {
        match answer(run) {
            Ok(found) => found.recipes,
            Err(_) => {
                let none: Vec<String> = Vec::new();
                assert(none.deep_view() =~= Seq::<Seq<char>>::empty());
                none
            },
        }
    }

    /// Tells whether the channel offers the package `name`.
    fn offers(lock: &Option<Lock>, name: &str) -> (r: bool)
        ensures
            r == in_channel(lock.deep_view(), name@),
    {
        match lock {
            Some(l) => l.packages.contains_key(name),
            None => true,
        }
    }

    /// Adds to the cache the packages among `recipes` that the channel offers and that have no
    /// component in the catalog. What the cache knows stays as it is, also of a component whose
    /// identifier is the name of an added package.
    pub fn augment_cache_with_recipes(&mut self, recipes: Vec<String>)
        ensures
            final(self)@ == old(self)@.with_recipes(recipes.deep_view()),
    {
        proof {
            use_type_invariant(&*self);
        }
        let ghost start = self@;
        let ghost all = recipes.deep_view();
        proof {
            lemma_augmented_none(start.cache, start.lock);
            assert(all.take(0) =~= Seq::<Seq<char>>::empty());
        }
        let mut i: usize = 0;
        while i < recipes.len()
            invariant
                i <= recipes@.len(),
                all == recipes.deep_view(),
                self.wf(),
                self@ == start.with_recipes(all.take(i as int)),
            decreases recipes@.len() - i,
        {
            let name = recipes[i].as_str();
            let cache = &self.appstream_caches[0];
            proof {
                lemma_augmented_push(start.cache, start.lock, all.take(i as int), name@);
                assert(all.take(i as int).push(name@) =~= all.take(i + 1));
            }
            if Self::offers(&self.lock, name) && !cache.pkgnames.contains_key(name) {
                let ghost before = self@.cache;
                let ghost added = own_info(
                    before.source_id,
                    before.source_name,
                    name@,
                    AppKind::Addon,
                );
                let known: bool = cache.infos.contains_key(name);
                if !known {
                    let info = AppInfo::of_package(
                        cache.source_id.as_str(),
                        cache.source_name.as_str(),
                        name,
                        AppKind::Addon,
                    );
                    let cache = &mut self.appstream_caches[0];
                    cache.infos.insert(name.to_string(), Arc::new(info));
                }
                let mut ids = IdSet::new();
                ids.insert(AppId::new(name));
                assert(ids@ =~= seq![name@]);
                let cache = &mut self.appstream_caches[0];
                cache.pkgnames.insert(name.to_string(), ids);
                assert(self@.cache.infos =~= if known {
                    before.infos
                } else {
                    before.infos.insert(name@, added)
                });
                assert(self@.cache.pkgnames =~= before.pkgnames.insert(name@, seq![name@]));
            }
            i = i + 1;
        }
        assert(all.take(i as int) =~= all);
    }

    /// Fills the cache. `files` is what was found on disk where the channel is to be read anew,
    /// `components` is what was read from the catalog, and `run` is the client's answer to
    /// [`Self::recipes_request`].
    pub fn load_caches(
        &mut self,
        files: Option<ChannelFiles>,
        components: Components,
        run: Result<Reply<RecipesResult>, String>,
    ) -> (r: Result<(), String>)
        ensures
            r is Ok,
            final(self)@ == old(self)@.reread(files).with_components(components).with_recipes(
                recipes_found(run),
            ),
    {
        proof {
            use_type_invariant(&*self);
        }
        if let Some(found) = files {
            if let Some(config) = found.config {
                self.config = config;
            }
            self.lock = found.lock;
        }
        self.appstream_caches[0].reload(components);
        self.augment_cache_with_recipes(Self::all_recipes(run));
        Ok(())
    }

    /// The cards of the installed packages, given the client's answer to [`Self::list_request`].
    pub fn installed(&self, run: Result<Reply<ListResult>, String>) -> (r: Result<
        Vec<Package>,
        String,
    >)
        ensures
            match answered(run) {
                Ok(list) => r matches Ok(packages) && packages.deep_view() == installed_cards(
                    self@,
                    list,
                ),
                Err(error) => r matches Err(e) && e@ == error,
            },
    {
        let list = match Self::installed_map(run) {
            Ok(list) => list,
            Err(e) => {
                return Err(e);
            },
        };
        let ghost pairs = list.packages.pairs();
        let ghost card = installed_card(self@);
        let n: usize = list.packages.len();
        let mut out: Vec<Package> = Vec::new();
        let mut i: usize = 0;
        assert(out.deep_view() =~= pairs.take(0).flat_map(card));
        while i < n
            invariant
                i <= n,
                n == pairs.len(),
                pairs == list.packages.pairs(),
                card == installed_card(self@),
                out.deep_view() == pairs.take(i as int).flat_map(card),
            decreases n - i,
        {
            let name = list.packages.name_at(i);
            let store_name = list.packages.value_at(i);
            let version = self.version_of(name.as_str(), store_name.as_str());
            let mut found = self.packages_for(name.as_str(), version);
            let ghost before = out@;
            let ghost more = found@;
            out.append(&mut found);
            proof {
                pairs.lemma_flat_map_take_append(card, i as int);
                assert(out.deep_view() =~= before.map_values(|p: Package| p.deep_view())
                    + more.map_values(|p: Package| p.deep_view()));
            }
            i = i + 1;
        }
        assert(pairs.take(i as int) =~= pairs);
        Ok(out)
    }

    /// The version of an installed package.
    fn version_of(&self, name: &str, store_name: &str) -> (r: String)
        ensures
            r@ == installed_version(self@.lock, name@, store_name@),
    {
        if let Some(lock) = &self.lock {
            if let Some(entry) = lock.packages.get(name) {
                return entry.version.clone();
            }
        }
        version_from_store_name(store_name, name)
    }

    /// How to find the updates: without a lock there are none, else the client is asked what is
    /// installed.
    pub fn updates(&self) -> (r: UpdatesStep)
        ensures
            self@.lock is None ==> (r matches UpdatesStep::Done(packages) && packages@.len() == 0),
            self@.lock is Some ==> (r matches UpdatesStep::Ask(request) && request@ == seq![
                "list"@,
            ]),
    {
        match &self.lock {
            None => UpdatesStep::Done(Vec::new()),
            Some(_) => UpdatesStep::Ask(Self::list_request()),
        }
    }

    /// The cards of the updates, given the client's answer on what is installed. A package is
    /// outdated where the lock pins another build of it than the installed one.
    pub fn updates_from(&self, run: Result<Reply<ListResult>, String>) -> (r: Result<
        Vec<Package>,
        String,
    >)
        ensures
            match answered(run) {
                Ok(list) => r matches Ok(packages) && packages.deep_view() == update_cards(
                    self@,
                    list,
                ),
                Err(error) => if self@.lock is Some {
                    r matches Err(e) && e@ == error
                } else {
                    r matches Ok(packages) && packages@.len() == 0
                },
            },
    {
        let mut out: Vec<Package> = Vec::new();
        assert(out.deep_view() =~= Seq::<PackageView>::empty());
        let lock = match &self.lock {
            Some(lock) => lock,
            None => {
                return Ok(out);
            },
        };
        let list = match Self::installed_map(run) {
            Ok(list) => list,
            Err(e) => {
                return Err(e);
            },
        };
        let ghost pairs = list.packages.pairs();
        let ghost card = update_card(self@.cache, lock@);
        let n: usize = list.packages.len();
        let mut i: usize = 0;
        assert(out.deep_view() =~= pairs.take(0).flat_map(card));
        while i < n
            invariant
                i <= n,
                n == pairs.len(),
                pairs == list.packages.pairs(),
                card == update_card(self@.cache, lock@),
                out.deep_view() == pairs.take(i as int).flat_map(card),
            decreases n - i,
        {
            let name = list.packages.name_at(i);
            let store_name = list.packages.value_at(i);
            let mut found = self.update_of(lock, name.as_str(), store_name.as_str());
            let ghost before = out@;
            let ghost more = found@;
            out.append(&mut found);
            proof {
                pairs.lemma_flat_map_take_append(card, i as int);
                assert(card(pairs[i as int]) =~= more.map_values(|p: Package| p.deep_view()));
                assert(out.deep_view() =~= before.map_values(|p: Package| p.deep_view())
                    + more.map_values(|p: Package| p.deep_view()));
            }
            i = i + 1;
        }
        assert(pairs.take(i as int) =~= pairs);
        Ok(out)
    }

    /// The cards of the update of one installed package.
    fn update_of(&self, lock: &Lock, name: &str, store_name: &str) -> (r: Vec<Package>)
        ensures
            !outdated(lock@, name@, store_name@) ==> r@.len() == 0,
            outdated(lock@, name@, store_name@) ==> r.deep_view() == cards(
                self@.cache,
                name@,
                lock@.packages[name@].version,
            ).map_values(|card: PackageView| with_installed(card, name@, store_name@)),
    {
        let entry = match lock.packages.get(name) {
            Some(entry) => entry,
            None => {
                return Vec::new();
            },
        };
        assert(lock@.packages[name@] == entry@);
        if same_text(entry.store_name(name).as_str(), store_name) {
            return Vec::new();
        }
        let mut found = self.packages_for(name, entry.version.clone());
        let ghost plain = found.deep_view();
        let n: usize = found.len();
        let mut i: usize = 0;
        while i < n
            invariant
                i <= n,
                plain.len() == n,
                found@.len() == n,
                forall|j: int|
                    0 <= j < i ==> (#[trigger] found@[j])@ == with_installed(
                        plain[j],
                        name@,
                        store_name@,
                    ),
                forall|j: int| i <= j < n ==> (#[trigger] found@[j])@ == plain[j],
            decreases n - i,
        {
            let card = &mut found[i];
            card.extra.insert(
                name.to_string().concat("_installed"),
                version_from_store_name(store_name, name),
            );
            assert(found@[i as int]@.extra =~= plain[i as int].extra.insert(
                installed_key(name@),
                stored_version(store_name@, name@),
            ));
            i = i + 1;
        }
        assert(found.deep_view() =~= plain.map_values(
            |card: PackageView| with_installed(card, name@, store_name@),
        ));
        found
    }

    /// The packages in a local file: none, since packages come from the channel alone.
    pub fn file_packages(&self, _path: &str) -> (r: Result<Vec<Package>, String>)
        ensures
            r matches Ok(packages) && packages@.len() == 0,
    {
        Ok(Vec::new())
    }

    /// The packages that provide a codec: none, since the channel does not tell.
    pub fn gstreamer_packages(&self, _codec: &str) -> (r: Result<Vec<Package>, String>)
        ensures
            r matches Ok(packages) && packages@.len() == 0,
    {
        Ok(Vec::new())
    }
}

} // verus!
