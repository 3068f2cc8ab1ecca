//! What a store front knows of an application.

use vstd::prelude::*;

verus! {

/// The identifier of a component in a catalog, such as `com.system76.CosmicFiles`; a package
/// without a component is identified by its own name.
#[derive(Debug, PartialEq, Eq, PartialOrd, Ord, Hash)]
pub struct AppId {
    text: String,
}

impl View for AppId {
    type V = Seq<char>;

    closed spec fn view(&self) -> Seq<char> {
        self.text@
    }
}

impl DeepView for AppId {
    type V = Seq<char>;

    open spec fn deep_view(&self) -> Seq<char> {
        self@
    }
}

impl Clone for AppId {
    fn clone(&self) -> (r: Self)
        ensures
            r@ == self@,
    {
        AppId { text: self.text.clone() }
    }
}

impl AppId {
    /// The identifier that reads `text`.
    pub fn new(text: &str) -> (r: Self)
        ensures
            r@ == text@,
    {
        AppId { text: text.to_string() }
    }

    /// The text of the identifier.
    pub fn as_str(&self) -> (r: &str)
        ensures
            r@ == self@,
    {
        self.text.as_str()
    }
}

/// What a component is. Search and categories show applications only.
#[derive(Clone, Copy, Debug, PartialEq, Eq, Structural)]
pub enum AppKind {
    DesktopApplication,
    Addon,
}

impl Default for AppKind {
    fn default() -> (r: Self)
        ensures
            r == AppKind::DesktopApplication,
    {
        AppKind::DesktopApplication
    }
}

/// The metadata of one component.
#[derive(Clone, Debug)]
pub struct AppInfo {
    /// The source that offers the component.
    pub source_id: String,
    /// The source's name as it is shown.
    pub source_name: String,
    /// The component's name as it is shown.
    pub name: String,
    /// The packages that carry the component.
    pub pkgnames: Vec<String>,
    pub kind: AppKind,
}

/// The contents of an [`AppInfo`].
#[verifier::ext_equal]
pub struct AppInfoView {
    pub source_id: Seq<char>,
    pub source_name: Seq<char>,
    pub name: Seq<char>,
    pub pkgnames: Seq<Seq<char>>,
    pub kind: AppKind,
}

impl View for AppInfo {
    type V = AppInfoView;

    open spec fn view(&self) -> AppInfoView {
        AppInfoView {
            source_id: self.source_id@,
            source_name: self.source_name@,
            name: self.name@,
            pkgnames: self.pkgnames.deep_view(),
            kind: self.kind,
        }
    }
}

/// What is known of a package that has no component of its own: it is shown under its own name
/// and is carried by itself.
pub open spec fn own_info(
    source_id: Seq<char>,
    source_name: Seq<char>,
    name: Seq<char>,
    kind: AppKind,
) -> AppInfoView {
    AppInfoView { source_id, source_name, name, pkgnames: seq![name], kind }
}

impl AppInfo {
    /// The metadata of a package that has no component of its own.
    pub fn of_package(source_id: &str, source_name: &str, name: &str, kind: AppKind) -> (r: Self)
        ensures
            r@ == own_info(source_id@, source_name@, name@, kind),
    {
        let mut pkgnames: Vec<String> = Vec::new();
        pkgnames.push(name.to_string());
        assert(pkgnames.deep_view() =~= seq![name@]);
        AppInfo {
            source_id: source_id.to_string(),
            source_name: source_name.to_string(),
            name: name.to_string(),
            pkgnames,
            kind,
        }
    }
}

} // verus!
