use std::path::PathBuf;
use std::sync::Arc;
use svitlo_store::app_info::{AppId, AppInfo, AppKind};
use svitlo_store::backend::appstream::{
    build_cache, catalog_dirs, catalog_entries, catalog_url, ids_for_pkg, local_catalog_path,
    CatalogListing, Components, IdSet, YamlFallback,
};
use svitlo_store::backend::json_types::{
    AcceptEulaResult, Decoded, InstallResult, ListResult, Lock, LockEntry, ProminConfig,
    RecipesResult, RemoveResult, Reply, StatusResult,
};
use svitlo_store::backend::operation::{
    op_pkg_names, Operation, OperationKind, OperationRun, OperationStep, Progress,
};
use svitlo_store::backend::promin::{
    channel_paths, channel_release, ChannelFiles, ProminBackend, UpdatesStep,
};
use svitlo_store::backend::{BackendName, Icon, Package};
use svitlo_store::name_map::NameMap;

fn reply<T>(payload: T) -> Result<Reply<T>, String> {
    Ok(Reply {
        stdout: "{}".to_string(),
        decoded: Decoded { envelope: None, payload: Ok(payload) },
    })
}

fn no_listing() -> CatalogListing {
    CatalogListing { xml: None, yaml: None, has_icons: false }
}

fn entry(version: &str, hash: &str) -> LockEntry {
    LockEntry {
        version: version.to_string(),
        input_hash: hash.to_string(),
        runtime_deps: vec![],
        store_name: None,
    }
}

fn lock(release: Option<&str>, pins: &[(&str, &str, &str)]) -> Lock {
    let mut packages = NameMap::new();
    for (name, version, hash) in pins {
        packages.insert(name.to_string(), entry(version, hash));
    }
    Lock {
        release: release.map(|r| r.to_string()),
        promin_ref: None,
        package_count: Some(pins.len() as u64),
        packages,
    }
}

fn list(installed: &[(&str, &str)]) -> ListResult {
    let mut packages = NameMap::new();
    for (name, store_name) in installed {
        packages.insert(name.to_string(), store_name.to_string());
    }
    ListResult { packages }
}

fn recipes(names: &[&str]) -> Result<Reply<RecipesResult>, String> {
    reply(RecipesResult { recipes: names.iter().map(|n| n.to_string()).collect() })
}

fn info(name: &str, pkgnames: &[&str]) -> Arc<AppInfo> {
    Arc::new(AppInfo {
        source_id: "promin".to_string(),
        source_name: "Svitlo".to_string(),
        name: name.to_string(),
        pkgnames: pkgnames.iter().map(|n| n.to_string()).collect(),
        kind: AppKind::DesktopApplication,
    })
}

/// A catalog in which `cosmic-files` has one component, `suite` has two of which one is without
/// metadata, and `wget` has none.
fn components() -> Components {
    let mut infos = NameMap::new();
    infos.insert("com.system76.CosmicFiles".to_string(), info("Files", &["cosmic-files"]));
    infos.insert("org.suite.Writer".to_string(), info("Writer", &["suite"]));
    let mut pkgnames = NameMap::new();
    let mut files = IdSet::new();
    files.insert(AppId::new("com.system76.CosmicFiles"));
    pkgnames.insert("cosmic-files".to_string(), files);
    let mut suite = IdSet::new();
    suite.insert(AppId::new("org.suite.Writer"));
    suite.insert(AppId::new("org.suite.Lost"));
    suite.insert(AppId::new("org.suite.Writer"));
    pkgnames.insert("suite".to_string(), suite);
    Components { infos, pkgnames }
}

fn no_components() -> Components {
    Components { infos: NameMap::new(), pkgnames: NameMap::new() }
}

fn backend(l: Option<Lock>) -> ProminBackend {
    let mut b = ProminBackend::new("uk", None, l, no_listing()).unwrap();
    b.load_caches(None, components(), Err("offline".to_string())).unwrap();
    b
}

fn is_generic(p: &Package, name: &str) -> bool {
    let icon = match &p.icon {
        Icon::Named { name, size } => name == "package-x-generic" && *size == 128,
        Icon::Component => false,
    };
    icon && p.id.as_str() == name
        && p.info.name == name
        && p.info.pkgnames == vec![name.to_string()]
        && p.info.source_id == "promin"
        && p.info.source_name == "Svitlo"
        && p.info.kind == AppKind::DesktopApplication
}

#[test]
fn backend_names_read_back() {
    let names = [
        (BackendName::FlatpakUser, "flatpak-user", true),
        (BackendName::FlatpakSystem, "flatpak-system", true),
        (BackendName::Packagekit, "packagekit", false),
        (BackendName::Pkgar, "pkgar", false),
        (BackendName::RpmOstree, "rpm-ostree", false),
        (BackendName::Promin, "promin", false),
    ];
    for (name, text, flatpak) in names {
        assert_eq!(name.as_str(), text);
        assert_eq!(name.to_string(), text);
        assert_eq!(name.is_flatpak(), flatpak);
        assert_eq!(text.parse::<BackendName>(), Ok(name));
    }
    assert_eq!(
        "Promin".parse::<BackendName>(),
        Err("unknown backend name: Promin".to_string())
    );
    assert_eq!("".parse::<BackendName>(), Err("unknown backend name: ".to_string()));
}

#[test]
fn catalog_url_ignores_slashes_at_the_end() {
    let url = "https://cache.svitlolinux.org/releases/0.3/catalog";
    assert_eq!(catalog_url("https://cache.svitlolinux.org", "0.3"), url);
    assert_eq!(catalog_url("https://cache.svitlolinux.org/", "0.3"), url);
    assert_eq!(catalog_url("https://cache.svitlolinux.org///", "0.3"), url);
}

#[test]
fn catalog_lies_under_its_release() {
    assert_eq!(local_catalog_path("0.3"), "/var/lib/svitlo-store/appstream/0.3");
    assert_eq!(local_catalog_path(""), "/var/lib/svitlo-store/appstream/");
    assert_eq!(local_catalog_path("/srv/catalog"), "/srv/catalog");
    let dirs = catalog_dirs("0.3");
    assert_eq!(dirs.xml, "/var/lib/svitlo-store/appstream/0.3/xml");
    assert_eq!(dirs.yaml, "/var/lib/svitlo-store/appstream/0.3/yaml");
    assert_eq!(dirs.icons, "/var/lib/svitlo-store/appstream/0.3/icons");
    assert_eq!(catalog_dirs("").xml, "/var/lib/svitlo-store/appstream/xml");
}

#[test]
fn catalog_entries_are_xml_then_yaml() {
    let paths = |names: &[&str]| -> Vec<PathBuf> { names.iter().map(PathBuf::from).collect() };
    let listing = CatalogListing {
        xml: Some(paths(&["x/b.xml", "x/a.xml"])),
        yaml: Some(paths(&["y/c.yml"])),
        has_icons: true,
    };
    let (files, icons) = catalog_entries("0.3", listing);
    assert_eq!(files, paths(&["x/b.xml", "x/a.xml", "y/c.yml"]));
    assert_eq!(icons, vec!["/var/lib/svitlo-store/appstream/0.3/icons".to_string()]);
    let (files, icons) = catalog_entries("0.3", no_listing());
    assert!(files.is_empty());
    assert!(icons.is_empty());
}

#[test]
fn fresh_cache_knows_nothing() {
    let listing = CatalogListing {
        xml: None,
        yaml: Some(vec![PathBuf::from("c.yml")]),
        has_icons: true,
    };
    let cache = build_cache("uk", "0.3", listing);
    assert_eq!(cache.source_id, "promin");
    assert_eq!(cache.source_name, "Svitlo");
    assert_eq!(cache.locale, "uk");
    assert_eq!(cache.paths, vec![PathBuf::from("c.yml")]);
    assert_eq!(cache.icons_paths, vec!["/var/lib/svitlo-store/appstream/0.3/icons".to_string()]);
    assert!(cache.infos.is_empty());
    assert!(cache.pkgnames.is_empty());
    assert!(ids_for_pkg(&cache, "wget").is_empty());
}

#[test]
fn ids_of_a_package_occur_once() {
    let b = backend(None);
    let texts = |name: &str| -> Vec<String> {
        ids_for_pkg(b.cache(), name).iter().map(|id| id.as_str().to_string()).collect()
    };
    assert_eq!(texts("cosmic-files"), vec!["com.system76.CosmicFiles"]);
    assert_eq!(texts("suite"), vec!["org.suite.Writer", "org.suite.Lost"]);
    assert!(texts("wget").is_empty());
}

#[test]
fn fallback_metadata_is_empty() {
    let f = YamlFallback::default();
    assert_eq!(f.summary, "");
    assert!(f.categories.is_empty());
    assert_eq!(f.icon_name, None);
}

#[test]
fn channel_in_force() {
    let config = |release: &str| {
        Some(ProminConfig { release: release.to_string(), ..ProminConfig::default() })
    };
    assert_eq!(channel_release(&config("0.4"), &Some(lock(Some("0.3"), &[]))), "0.4");
    assert_eq!(channel_release(&config(""), &Some(lock(Some("0.3"), &[]))), "0.3");
    assert_eq!(channel_release(&None, &Some(lock(Some("0.3"), &[]))), "0.3");
    assert_eq!(channel_release(&None, &Some(lock(None, &[]))), "");
    assert_eq!(channel_release(&config(""), &None), "");
    assert_eq!(channel_release(&None, &None), "");
}

#[test]
fn channel_files_lie_under_the_root() {
    let paths = channel_paths("/promin");
    assert_eq!(paths.config, "/promin/config.json");
    assert_eq!(paths.lock, "/promin/lock.json");
}

#[test]
fn new_backend_takes_what_was_found() {
    let listing = CatalogListing { xml: None, yaml: None, has_icons: true };
    let b = ProminBackend::new("uk", None, Some(lock(Some("0.3"), &[])), listing).unwrap();
    assert_eq!(b.locale(), "uk");
    assert_eq!(b.prefix(), "/promin");
    assert_eq!(b.config().timeout, 30);
    assert!(b.lock().is_some());
    assert_eq!(b.info_caches().len(), 1);
    assert_eq!(
        b.cache().icons_paths,
        vec!["/var/lib/svitlo-store/appstream/0.3/icons".to_string()]
    );
    let config = ProminConfig { timeout: 5, ..ProminConfig::default() };
    let b = ProminBackend::with_prefix("en", "/tmp/p", Some(config), None, no_listing()).unwrap();
    assert_eq!(b.config().timeout, 5);
    assert!(b.lock().is_none());
    assert_eq!(
        b.command_line(&ProminBackend::accept_eula_request("nonfree")),
        vec!["--prefix", "/tmp/p", "--json", "accept-eula", "nonfree"]
    );
}

#[test]
fn cards_of_a_package() {
    let b = backend(None);
    let cards = b.packages_for("cosmic-files", "1.0".to_string());
    assert_eq!(cards.len(), 1);
    assert_eq!(cards[0].id.as_str(), "com.system76.CosmicFiles");
    assert!(matches!(cards[0].icon, Icon::Component));
    assert_eq!(cards[0].info.name, "Files");
    assert_eq!(cards[0].version, "1.0");
    assert!(cards[0].extra.is_empty());

    let cards = b.packages_for("suite", "7".to_string());
    assert_eq!(cards.len(), 2);
    assert_eq!(cards[0].info.name, "Writer");
    assert!(is_generic(&cards[1], "suite"));
    assert_eq!(cards[1].version, "7");

    let cards = b.packages_for("wget", "1.21".to_string());
    assert_eq!(cards.len(), 1);
    assert!(is_generic(&cards[0], "wget"));
    assert!(is_generic(&b.generic_package("wget", String::new()), "wget"));
}

#[test]
fn installed_packages_are_shown_in_order() {
    let b = backend(Some(lock(None, &[("wget", "1.24", "zzz")])));
    let run = reply(list(&[
        ("wget", "def-wget-1.21"),
        ("cosmic-files", "abc123-cosmic-files-1.0.0"),
        ("odd", "odd"),
    ]));
    let cards = b.installed(run).unwrap();
    let shown: Vec<(&str, &str)> =
        cards.iter().map(|p| (p.id.as_str(), p.version.as_str())).collect();
    assert_eq!(
        shown,
        vec![("com.system76.CosmicFiles", "1.0.0"), ("odd", ""), ("wget", "1.24")]
    );
}

#[test]
fn installed_hands_on_errors() {
    let b = backend(None);
    assert_eq!(b.installed(Err("нет".to_string())).unwrap_err(), "нет");
    let bad: Result<Reply<ListResult>, String> = Ok(Reply {
        stdout: " ".to_string(),
        decoded: Decoded { envelope: None, payload: Err("eof".to_string()) },
    });
    assert_eq!(b.installed(bad).unwrap_err(), "promin: пустой вывод");
}

#[test]
fn updates_without_a_lock() {
    let b = backend(None);
    match b.updates() {
        UpdatesStep::Done(cards) => assert!(cards.is_empty()),
        UpdatesStep::Ask(_) => panic!("nothing to ask"),
    }
    assert!(b.updates_from(reply(list(&[("wget", "def-wget-1.21")]))).unwrap().is_empty());
    assert!(b.updates_from(Err("нет".to_string())).unwrap().is_empty());
}

#[test]
fn updates_are_the_outdated_packages() {
    let pins = [
        ("cosmic-files", "1.1.0", "new"),
        ("suite", "8", "s8"),
        ("wget", "1.21", "def"),
        ("absent", "1", "a"),
    ];
    let b = backend(Some(lock(Some("0.3"), &pins)));
    match b.updates() {
        UpdatesStep::Ask(request) => assert_eq!(request.args(), vec!["list"]),
        UpdatesStep::Done(_) => panic!("the client is to be asked"),
    }
    let run = reply(list(&[
        ("wget", "def-wget-1.21"),
        ("suite", "s7-suite-7"),
        ("cosmic-files", "abc123-cosmic-files-1.0.0"),
        ("unpinned", "u-unpinned-1"),
    ]));
    let cards = b.updates_from(run).unwrap();
    let shown: Vec<(&str, &str)> =
        cards.iter().map(|p| (p.id.as_str(), p.version.as_str())).collect();
    assert_eq!(
        shown,
        vec![("com.system76.CosmicFiles", "1.1.0"), ("org.suite.Writer", "8"), ("suite", "8")]
    );
    assert_eq!(cards[0].extra.get("cosmic-files_installed").unwrap(), "1.0.0");
    assert_eq!(cards[2].extra.get("suite_installed").unwrap(), "7");
    assert_eq!(cards[0].extra.len(), 1);
    assert_eq!(b.updates_from(Err("нет".to_string())).unwrap_err(), "нет");
}

#[test]
fn updates_are_among_the_installed() {
    let pins = [("cosmic-files", "1.1.0", "new"), ("suite", "8", "s8"), ("wget", "1.21", "def")];
    let b = backend(Some(lock(None, &pins)));
    let found = || reply(list(&[("suite", "s7-suite-7"), ("wget", "def-wget-1.21"), ("x", "h-x-1")]));
    let cards = |cards: Vec<Package>| -> Vec<(String, String, String)> {
        cards
            .iter()
            .map(|p| (p.id.as_str().to_string(), p.version.clone(), p.info.name.clone()))
            .collect()
    };
    let installed = cards(b.installed(found()).unwrap());
    let updates = cards(b.updates_from(found()).unwrap());
    assert_eq!(installed.len(), 4);
    assert_eq!(updates, installed[..2].to_vec());
}

#[test]
fn queries_of_the_client() {
    assert_eq!(ProminBackend::list_request().args(), vec!["list"]);
    assert_eq!(ProminBackend::status_request().args(), vec!["status"]);
    assert_eq!(ProminBackend::recipes_request().args(), vec!["recipes"]);
}

#[test]
fn no_updates_where_all_is_as_pinned() {
    let b = backend(Some(lock(None, &[("wget", "1.21", "def"), ("suite", "8", "s8")])));
    let run = reply(list(&[("wget", "def-wget-1.21"), ("suite", "s8-suite-8")]));
    assert!(b.updates_from(run).unwrap().is_empty());
}

#[test]
fn recipes_without_a_component_are_added() {
    let mut b = backend(None);
    b.augment_cache_with_recipes(vec![
        "wget".to_string(),
        "cosmic-files".to_string(),
        "wget".to_string(),
    ]);
    let cache = b.cache();
    assert_eq!(cache.pkgnames.len(), 3);
    assert_eq!(cache.infos.len(), 3);
    let added = cache.infos.get("wget").unwrap();
    assert_eq!(added.kind, AppKind::Addon);
    assert_eq!(added.name, "wget");
    assert_eq!(added.pkgnames, vec!["wget".to_string()]);
    assert_eq!(added.source_id, "promin");
    assert_eq!(added.source_name, "Svitlo");
    let ids = ids_for_pkg(cache, "wget");
    assert_eq!(ids.len(), 1);
    assert_eq!(ids[0].as_str(), "wget");
    assert!(cache.infos.get("cosmic-files").is_none());
    assert_eq!(cache.infos.get("com.system76.CosmicFiles").unwrap().name, "Files");
    let cards = b.packages_for("wget", "1".to_string());
    assert!(matches!(cards[0].icon, Icon::Component));
    assert_eq!(cards[0].info.kind, AppKind::Addon);
}

#[test]
fn recipes_outside_the_channel_are_left_out() {
    let names = || vec!["wget".to_string(), "curl".to_string()];
    let mut b = backend(Some(lock(None, &[("wget", "1", "h")])));
    b.augment_cache_with_recipes(names());
    assert!(b.cache().pkgnames.contains_key("wget"));
    assert!(!b.cache().pkgnames.contains_key("curl"));
    let mut b = backend(None);
    b.augment_cache_with_recipes(names());
    assert!(b.cache().pkgnames.contains_key("curl"));
}

#[test]
fn lock_that_pins_nothing_offers_nothing() {
    let mut b = backend(Some(lock(None, &[])));
    b.augment_cache_with_recipes(vec!["wget".to_string(), "curl".to_string()]);
    assert_eq!(b.cache().pkgnames.len(), 2);
    assert_eq!(b.cache().infos.len(), 2);
    assert!(!b.cache().pkgnames.contains_key("wget"));
    assert!(!b.cache().infos.contains_key("curl"));
}

#[test]
fn recipe_named_like_a_component_leaves_it_alone() {
    let mut b = backend(None);
    b.augment_cache_with_recipes(vec!["org.suite.Writer".to_string()]);
    assert_eq!(b.cache().infos.len(), 2);
    let kept = b.cache().infos.get("org.suite.Writer").unwrap();
    assert_eq!(kept.kind, AppKind::DesktopApplication);
    assert_eq!(kept.name, "Writer");
    assert_eq!(kept.pkgnames, vec!["suite".to_string()]);
    let ids = ids_for_pkg(b.cache(), "org.suite.Writer");
    assert_eq!(ids.len(), 1);
    assert_eq!(ids[0].as_str(), "org.suite.Writer");
    assert_eq!(ids_for_pkg(b.cache(), "suite").len(), 2);
}

#[test]
fn adding_recipes_twice_changes_nothing() {
    let mut b = backend(None);
    b.augment_cache_with_recipes(vec!["wget".to_string(), "zlib".to_string()]);
    let (infos, names) = (b.cache().infos.len(), b.cache().pkgnames.len());
    b.augment_cache_with_recipes(vec!["zlib".to_string(), "wget".to_string()]);
    assert_eq!((b.cache().infos.len(), b.cache().pkgnames.len()), (infos, names));
    assert_eq!(ids_for_pkg(b.cache(), "wget").len(), 1);
}

#[test]
fn all_recipes_swallows_errors() {
    assert_eq!(ProminBackend::all_recipes(recipes(&["a", "b"])), vec!["a", "b"]);
    assert!(ProminBackend::all_recipes(Err("offline".to_string())).is_empty());
}

#[test]
fn loading_fills_the_cache() {
    let config = ProminConfig { timeout: 7, ..ProminConfig::default() };
    let mut b =
        ProminBackend::new("uk", Some(config), Some(lock(None, &[("old", "1", "h")])), no_listing())
            .unwrap();
    b.load_caches(None, components(), recipes(&["old", "wget"])).unwrap();
    assert!(b.lock().is_some());
    assert!(b.cache().pkgnames.contains_key("old"));
    assert!(!b.cache().pkgnames.contains_key("wget"));
    assert!(b.cache().pkgnames.contains_key("cosmic-files"));

    let files = ChannelFiles { config: None, lock: None };
    b.load_caches(Some(files), no_components(), recipes(&["wget"])).unwrap();
    assert_eq!(b.config().timeout, 7);
    assert!(b.lock().is_none());
    assert_eq!(b.cache().pkgnames.len(), 1);
    assert!(b.cache().pkgnames.contains_key("wget"));

    let config = ProminConfig { timeout: 8, ..ProminConfig::default() };
    let files = ChannelFiles { config: Some(config), lock: Some(lock(None, &[])) };
    b.load_caches(Some(files), no_components(), Err("offline".to_string())).unwrap();
    assert_eq!(b.config().timeout, 8);
    assert!(b.lock().is_some());
    assert!(b.cache().pkgnames.is_empty());
}

#[test]
fn loading_twice_changes_nothing() {
    let mut b = backend(None);
    b.load_caches(None, components(), recipes(&["wget"])).unwrap();
    let before: Vec<String> =
        (0..b.cache().infos.len()).map(|i| b.cache().infos.name_at(i).clone()).collect();
    b.load_caches(None, components(), recipes(&["wget"])).unwrap();
    let after: Vec<String> =
        (0..b.cache().infos.len()).map(|i| b.cache().infos.name_at(i).clone()).collect();
    assert_eq!(before, after);
}

#[test]
fn answers_to_single_commands() {
    let eula = AcceptEulaResult {
        ok: true,
        channel: "nonfree".to_string(),
        eula_accepted: "/promin/eula/nonfree.accepted".to_string(),
    };
    assert_eq!(ProminBackend::accept_eula(reply(eula)).unwrap().channel, "nonfree");
    assert_eq!(ProminBackend::accept_eula(Err("x".to_string())).unwrap_err(), "x");
    let status = StatusResult {
        release: "0.3".to_string(),
        current_generation: 4,
        generations: vec![3, 4],
        servers: None,
        offline: false,
        lock: true,
        lock_packages: Some(2),
    };
    assert_eq!(ProminBackend::status(reply(status)).unwrap().current_generation, 4);
    assert_eq!(ProminBackend::status(Err("x".to_string())).unwrap_err(), "x");
    assert_eq!(
        ProminBackend::installed_map(reply(list(&[("a", "h-a-1")]))).unwrap().packages.len(),
        1
    );
}

#[test]
fn files_and_codecs_give_no_packages() {
    let b = backend(None);
    assert!(b.file_packages("/tmp/wget.tar.gz").unwrap().is_empty());
    assert!(b.gstreamer_packages("audio/mpeg").unwrap().is_empty());
}

fn operation(kind: OperationKind, packages: &[&[&str]]) -> Operation {
    Operation { kind, infos: packages.iter().map(|p| info("x", p)).collect() }
}

fn installed(ok: bool, error: Option<&str>) -> Result<Reply<InstallResult>, String> {
    reply(InstallResult { ok, installed: None, error: error.map(|e| e.to_string()) })
}

fn removed(ok: bool, error: Option<&str>) -> Result<Reply<RemoveResult>, String> {
    reply(RemoveResult { ok, removed: None, error: error.map(|e| e.to_string()) })
}

fn next_args(run: &OperationRun) -> Vec<String> {
    match run.next() {
        OperationStep::Run(request) => request.args(),
        _ => panic!("a command was expected"),
    }
}

fn report(done: usize, total: usize) -> Progress {
    Progress { done, total, scale: 100 }
}

#[test]
fn operation_names_its_packages() {
    let op = operation(OperationKind::Install, &[&["b", "a"], &[], &["a"]]);
    assert_eq!(op_pkg_names(&op), vec!["b", "a", "a"]);
}

#[test]
fn operation_without_packages_is_an_error() {
    for kind in [OperationKind::Install, OperationKind::RepositoryAdd] {
        let op = operation(kind, &[&[]]);
        let e = OperationRun::start(&op, "[AppId(\"x\")]").unwrap_err();
        assert_eq!(e, "[AppId(\"x\")]: нет имени промин-пакета");
    }
}

#[test]
fn operation_installs_one_after_the_other() {
    for kind in [OperationKind::Install, OperationKind::Update] {
        let op = operation(kind, &[&["a", "b"]]);
        let mut run = OperationRun::start(&op, "").unwrap();
        assert_eq!(run.progress(), report(0, 2));
        assert_eq!(next_args(&run), vec!["install", "a"]);
        assert_eq!(run.installed(installed(true, None)).unwrap(), report(1, 2));
        assert_eq!(next_args(&run), vec!["install", "b"]);
        assert_eq!(run.installed(installed(true, None)).unwrap(), report(2, 2));
        assert!(matches!(run.next(), OperationStep::Finish(last) if last == report(2, 2)));
        assert_eq!(run.progress(), report(2, 2));
    }
}

/// The requests and the reports of an operation of which the command at `fails_at` fails.
fn course(kind: OperationKind, names: &[&str], fails_at: Option<usize>) -> (Vec<String>, Vec<Progress>) {
    let mut run = OperationRun::start(&operation(kind, &[names]), "").unwrap();
    let mut asked = vec![];
    let mut told = vec![run.progress()];
    loop {
        match run.next() {
            OperationStep::Run(request) => asked.push(request.args().join(" ")),
            OperationStep::Finish(last) => {
                told.push(last);
                return (asked, told);
            }
            OperationStep::Refuse(_) => return (asked, told),
        }
        let ok = fails_at != Some(run.progress().done);
        match run.installed(installed(ok, None)) {
            Ok(progress) => told.push(progress),
            Err(_) => return (asked, told),
        }
    }
}

#[test]
fn reports_rise_to_the_end_of_the_scale() {
    let percent = |names: &[&str], fails_at: Option<usize>| -> Vec<f32> {
        let (_, told) = course(OperationKind::Install, names, fails_at);
        told.iter().map(|p| p.done as f32 / p.total as f32 * p.scale as f32).collect()
    };
    assert_eq!(percent(&["a", "b", "c", "d"], None), vec![0.0, 25.0, 50.0, 75.0, 100.0, 100.0]);
    assert_eq!(percent(&["a"], None), vec![0.0, 100.0, 100.0]);
    assert_eq!(percent(&["a", "b"], Some(1)), vec![0.0, 50.0]);
    assert_eq!(percent(&["a", "b"], Some(0)), vec![0.0]);
}

#[test]
fn update_runs_as_an_installation() {
    for fails_at in [None, Some(0), Some(1)] {
        let names = ["a", "b"];
        let update = course(OperationKind::Update, &names, fails_at);
        assert_eq!(update, course(OperationKind::Install, &names, fails_at));
        assert_eq!(update.0[0], "install a");
    }
}

#[test]
fn operation_removes() {
    let op = operation(OperationKind::Uninstall, &[&["a"]]);
    let mut run = OperationRun::start(&op, "").unwrap();
    assert_eq!(next_args(&run), vec!["remove", "a"]);
    assert_eq!(run.removed(removed(true, None)).unwrap(), report(1, 1));
    assert!(matches!(run.next(), OperationStep::Finish(last) if last == report(1, 1)));
}

#[test]
fn operation_stops_at_an_error() {
    let op = operation(OperationKind::Install, &[&["a", "b"]]);
    let mut run = OperationRun::start(&op, "").unwrap();
    assert_eq!(run.installed(installed(false, Some("нет места"))).unwrap_err(), "нет места");
    assert_eq!(run.progress(), report(0, 2));
    assert_eq!(run.installed(installed(false, None)).unwrap_err(), "install a не удался");
    assert_eq!(run.installed(Err("код 1".to_string())).unwrap_err(), "код 1");

    let op = operation(OperationKind::Uninstall, &[&["a"]]);
    let mut run = OperationRun::start(&op, "").unwrap();
    assert_eq!(run.removed(removed(false, None)).unwrap_err(), "remove a не удался");
    assert_eq!(run.removed(removed(false, Some("занят"))).unwrap_err(), "занят");
}

#[test]
fn operation_on_channels_is_refused() {
    for kind in [OperationKind::RepositoryAdd, OperationKind::RepositoryRemove] {
        let run = OperationRun::start(&operation(kind, &[&["a"]]), "").unwrap();
        match run.next() {
            OperationStep::Refuse(e) => {
                assert_eq!(e, "promin: управление каналами через config.json, не операцией")
            },
            _ => panic!("a refusal was expected"),
        }
    }
}

#[test]
fn generic_card_names_its_package() {
    let b = backend(None);
    let card = b.generic_package("wget", "1".to_string());
    let op = Operation { kind: OperationKind::Install, infos: vec![card.info] };
    assert_eq!(op_pkg_names(&op), vec!["wget"]);
}
