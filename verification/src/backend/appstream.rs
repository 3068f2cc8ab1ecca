//! The AppStream catalog of a release: where it lies, and which of its components belong to which
//! package.

use crate::app_info::{AppId, AppInfo, AppInfoView};
use crate::name_map::NameMap;
use crate::text::{join_path, joined_path, same_text, trim_end_slashes, without_end_slashes};
use std::path::PathBuf;
use std::sync::Arc;
use vstd::prelude::*;
use vstd::string::*;

verus! {

/// `std::path::PathBuf`, the path of a catalog file. It is handed on as the file system gave it,
/// and nothing is said of what it holds.
#[verifier::external_type_specification]
#[verifier::external_body]
pub struct ExPathBuf(std::path::PathBuf);

/// The directory under which the catalogs of the releases lie.
pub const SVITLO_CATALOG_DIR: &'static str = "/var/lib/svitlo-store/appstream";

/// The identifier of this source of packages.
pub const SOURCE_ID: &'static str = "promin";

/// The name under which this source of packages is shown.
pub const SOURCE_NAME: &'static str = "Svitlo";

/// The address at which `server` offers the catalog of `release`.
pub open spec fn catalog_address(server: Seq<char>, release: Seq<char>) -> Seq<char> {
    without_end_slashes(server) + "/releases/"@ + release + "/catalog"@
}

/// The address at which `server` offers the catalog of `release`. Slashes at the end of `server`
/// make no difference.
pub fn catalog_url(server: &str, release: &str) -> (r: String)
    ensures
        r@ == catalog_address(server@, release@),
{
    trim_end_slashes(server).to_string().concat("/releases/").concat(release).concat("/catalog")
}

/// The directory in which the catalog of `release` lies.
pub open spec fn catalog_root(release: Seq<char>) -> Seq<char> {
    joined_path(SVITLO_CATALOG_DIR@, release)
}

/// The directory in which the catalog of `release` lies.
pub fn local_catalog_path(release: &str) -> (r: String)
    ensures
        r@ == catalog_root(release@),
{
    join_path(SVITLO_CATALOG_DIR, release)
}

/// The directories of a release's catalog.
#[derive(Debug, Clone)]
pub struct CatalogDirs {
    pub xml: String,
    pub yaml: String,
    pub icons: String,
}

/// The directories that make up the catalog of `release`.
pub fn catalog_dirs(release: &str) -> (r: CatalogDirs)
    ensures
        r.xml@ == joined_path(catalog_root(release@), "xml"@),
        r.yaml@ == joined_path(catalog_root(release@), "yaml"@),
        r.icons@ == joined_path(catalog_root(release@), "icons"@),
{
    let root = local_catalog_path(release);
    CatalogDirs {
        xml: join_path(root.as_str(), "xml"),
        yaml: join_path(root.as_str(), "yaml"),
        icons: join_path(root.as_str(), "icons"),
    }
}

/// What the file system shows of [`CatalogDirs`].
#[derive(Debug)]
pub struct CatalogListing {
    /// The entries of the directory with XML files; nothing where it cannot be read.
    pub xml: Option<Vec<PathBuf>>,
    /// The entries of the directory with YAML files; nothing where it cannot be read.
    pub yaml: Option<Vec<PathBuf>>,
    /// Whether there is a directory with icons.
    pub has_icons: bool,
}

/// The entries of a directory that may be unreadable.
pub open spec fn entries_or_none(entries: Option<Vec<PathBuf>>) -> Seq<PathBuf> {
    match entries {
        Some(v) => v@,
        None => Seq::empty(),
    }
}

/// The files of a catalog: those in XML, then those in YAML.
pub open spec fn catalog_files(listing: CatalogListing) -> Seq<PathBuf> {
    entries_or_none(listing.xml) + entries_or_none(listing.yaml)
}

/// The icon directories of the catalog of `release`: one, where it exists.
pub open spec fn catalog_icons(release: Seq<char>, listing: CatalogListing) -> Seq<Seq<char>> {
    if listing.has_icons {
        seq![joined_path(catalog_root(release), "icons"@)]
    } else {
        Seq::empty()
    }
}

/// The files and the icon directories of the catalog of `release`. Both are empty where there is no
/// catalog.
pub fn catalog_entries(release: &str, listing: CatalogListing) -> (r: (Vec<PathBuf>, Vec<String>))
    ensures
        r.0@ == catalog_files(listing),
        r.1.deep_view() == catalog_icons(release@, listing),
{
    let mut paths: Vec<PathBuf> = Vec::new();
    if let Some(xml) = listing.xml {
        let mut entries = xml;
        paths.append(&mut entries);
    }
    if let Some(yaml) = listing.yaml {
        let mut entries = yaml;
        paths.append(&mut entries);
    }
    let mut icons: Vec<String> = Vec::new();
    if listing.has_icons {
        icons.push(catalog_dirs(release).icons);
    }
    assert(paths@ =~= catalog_files(listing));
    assert(icons.deep_view() =~= catalog_icons(release@, listing));
    (paths, icons)
}

/// A set of component identifiers. No identifier occurs twice.
#[derive(Debug)]
pub struct IdSet {
    ids: Vec<AppId>,
}

impl View for IdSet {
    type V = Seq<Seq<char>>;

    /// The identifiers in the order in which they are walked.
    closed spec fn view(&self) -> Seq<Seq<char>> {
        self.ids@.map_values(|id: AppId| id@)
    }
}

impl IdSet {
    /// No identifier occurs twice.
    #[verifier::type_invariant]
    pub open spec fn wf(&self) -> bool {
        self@.no_duplicates()
    }

    /// An empty set.
    pub fn new() -> (r: Self)
        ensures
            r.wf(),
            r@ == Seq::<Seq<char>>::empty(),
    {
        let r = IdSet { ids: Vec::new() };
        assert(r@ =~= Seq::<Seq<char>>::empty());
        r
    }

    /// Tells whether `id` belongs to the set.
    pub fn contains(&self, id: &AppId) -> (r: bool)
        ensures
            r == self@.contains(id@),
    {
        let mut i: usize = 0;
        while i < self.ids.len()
            invariant
                i <= self.ids@.len(),
                forall|j: int| 0 <= j < i ==> #[trigger] self@[j] != id@,
            decreases self.ids@.len() - i,
        {
            if same_text(self.ids[i].as_str(), id.as_str()) {
                assert(self@[i as int] == id@);
                return true;
            }
            i = i + 1;
        }
        false
    }

    /// Adds `id`, unless it belongs to the set already.
    pub fn insert(&mut self, id: AppId)
        ensures
            final(self).wf(),
            final(self)@ == (if old(self)@.contains(id@) {
                old(self)@
            } else {
                old(self)@.push(id@)
            }),
    {
        proof {
            use_type_invariant(&*self);
        }
        if !self.contains(&id) {
            let ghost before = self.ids@;
            let ghost added = id;
            let mut ids: Vec<AppId> = Vec::new();
            std::mem::swap(&mut ids, &mut self.ids);
            ids.push(id);
            assert(ids@.map_values(|id: AppId| id@) =~= before.map_values(|id: AppId| id@).push(
                added@,
            ));
            self.ids = ids;
        }
    }

    /// The identifiers, each once.
    pub fn to_vec(&self) -> (r: Vec<&AppId>)
        ensures
            self.wf(),
            r@.map_values(|id: &AppId| id@) == self@,
    {
        proof {
            use_type_invariant(self);
        }
        let mut out: Vec<&AppId> = Vec::new();
        let mut i: usize = 0;
        while i < self.ids.len()
            invariant
                i <= self.ids@.len(),
                out@.len() == i,
                forall|j: int| 0 <= j < i ==> *(#[trigger] out@[j]) == self.ids@[j],
            decreases self.ids@.len() - i,
        {
            out.push(&self.ids[i]);
            i = i + 1;
        }
        assert(out@.map_values(|id: &AppId| id@) =~= self@);
        out
    }
}

/// The components that were read from the files of a catalog.
#[derive(Debug)]
pub struct Components {
    /// The metadata of each component, under the text of its identifier.
    pub infos: NameMap<Arc<AppInfo>>,
    /// The components of each package, under the package's name.
    pub pkgnames: NameMap<IdSet>,
}

/// The components that are known of one source, and the packages that carry them.
#[derive(Debug)]
pub struct AppstreamCache {
    pub source_id: String,
    pub source_name: String,
    /// The files from which the components are read.
    pub paths: Vec<PathBuf>,
    pub icons_paths: Vec<String>,
    pub locale: String,
    /// The metadata of each component, under the text of its identifier.
    pub infos: NameMap<Arc<AppInfo>>,
    /// The components of each package, under the package's name.
    pub pkgnames: NameMap<IdSet>,
}

/// The contents of an [`AppstreamCache`].
#[verifier::ext_equal]
pub struct CacheView {
    pub source_id: Seq<char>,
    pub source_name: Seq<char>,
    pub paths: Seq<PathBuf>,
    pub icons_paths: Seq<Seq<char>>,
    pub locale: Seq<char>,
    pub infos: Map<Seq<char>, AppInfoView>,
    pub pkgnames: Map<Seq<char>, Seq<Seq<char>>>,
}

/// The metadata in a map of components.
pub open spec fn infos_of(infos: NameMap<Arc<AppInfo>>) -> Map<Seq<char>, AppInfoView> {
    infos@.map_values(|info: Arc<AppInfo>| info@)
}

/// The identifiers in a map of packages.
pub open spec fn ids_of(pkgnames: NameMap<IdSet>) -> Map<Seq<char>, Seq<Seq<char>>> {
    pkgnames@.map_values(|ids: IdSet| ids@)
}

impl View for AppstreamCache {
    type V = CacheView;

    open spec fn view(&self) -> CacheView {
        CacheView {
            source_id: self.source_id@,
            source_name: self.source_name@,
            paths: self.paths@,
            icons_paths: self.icons_paths.deep_view(),
            locale: self.locale@,
            infos: infos_of(self.infos),
            pkgnames: ids_of(self.pkgnames),
        }
    }
}

impl CacheView {
    /// The components of the package `name`.
    pub open spec fn ids(self, name: Seq<char>) -> Seq<Seq<char>> {
        if self.pkgnames.contains_key(name) {
            self.pkgnames[name]
        } else {
            Seq::empty()
        }
    }

    /// The same cache with `components` in place of those that it knows.
    pub open spec fn with_components(self, components: Components) -> CacheView {
        CacheView {
            infos: infos_of(components.infos),
            pkgnames: ids_of(components.pkgnames),
            ..self
        }
    }
}

impl AppstreamCache {
    /// A cache into which no component has been read yet.
    pub fn new(
        source_id: String,
        source_name: String,
        paths: Vec<PathBuf>,
        icons_paths: Vec<String>,
        locale: &str,
    ) -> (r: Self)
        ensures
            r@ == (CacheView {
                source_id: source_id@,
                source_name: source_name@,
                paths: paths@,
                icons_paths: icons_paths.deep_view(),
                locale: locale@,
                infos: Map::empty(),
                pkgnames: Map::empty(),
            }),
    {
        let r = AppstreamCache {
            source_id,
            source_name,
            paths,
            icons_paths,
            locale: locale.to_string(),
            infos: NameMap::new(),
            pkgnames: NameMap::new(),
        };
        assert(r@.infos =~= Map::<Seq<char>, AppInfoView>::empty());
        assert(r@.pkgnames =~= Map::<Seq<char>, Seq<Seq<char>>>::empty());
        r
    }

    /// Puts the components that were read from the files in place of those that are known.
    pub fn reload(&mut self, components: Components)
        ensures
            final(self)@ == old(self)@.with_components(components),
    {
        self.infos = components.infos;
        self.pkgnames = components.pkgnames;
    }
}

/// The cache of a source whose components lie in the catalog of `release`.
pub open spec fn fresh_cache(
    locale: Seq<char>,
    release: Seq<char>,
    listing: CatalogListing,
) -> CacheView {
    CacheView {
        source_id: SOURCE_ID@,
        source_name: SOURCE_NAME@,
        paths: catalog_files(listing),
        icons_paths: catalog_icons(release, listing),
        locale,
        infos: Map::empty(),
        pkgnames: Map::empty(),
    }
}

/// The cache for the catalog of `release`. Where there is no catalog it has no files to read, and
/// stays empty until packages are added to it.
pub fn build_cache(locale: &str, release: &str, listing: CatalogListing) -> (r: AppstreamCache)
    ensures
        r@ == fresh_cache(locale@, release@, listing),
{
    let (paths, icons_paths) = catalog_entries(release, listing);
    AppstreamCache::new(
        SOURCE_ID.to_string(),
        SOURCE_NAME.to_string(),
        paths,
        icons_paths,
        locale,
    )
}

/// The components of the package `promin_name`, each once: most often none or one, more for a
/// package that bundles others.
pub fn ids_for_pkg<'a>(cache: &'a AppstreamCache, promin_name: &str) -> (r: Vec<&'a AppId>)
    ensures
        r@.map_values(|id: &AppId| id@) == cache@.ids(promin_name@),
        cache@.ids(promin_name@).no_duplicates(),
{
    match cache.pkgnames.get(promin_name) {
        Some(ids) => ids.to_vec(),
        None => {
            let none: Vec<&'a AppId> = Vec::new();
            assert(none@.map_values(|id: &AppId| id@) =~= Seq::<Seq<char>>::empty());
            none
        },
    }
}

/// The metadata that a catalog may give to packages without a component of their own.
#[derive(Debug, Clone)]
pub struct YamlFallback {
    pub summary: String,
    pub categories: Vec<String>,
    pub icon_name: Option<String>,
}

impl Default for YamlFallback {
    fn default() -> (r: Self)
        ensures
            r.summary@ == Seq::<char>::empty(),
            r.categories@ == Seq::<String>::empty(),
            r.icon_name is None,
    {
        YamlFallback { summary: String::new(), categories: Vec::new(), icon_name: None }
    }
}

} // verus!
