//! The sources of packages.

use crate::app_info::{AppId, AppInfo, AppInfoView};
use crate::name_map::NameMap;
use crate::text::same_text;
use std::sync::Arc;
use vstd::prelude::*;
use vstd::string::*;

pub mod appstream;
pub mod command;
pub mod json_types;
pub mod operation;
pub mod promin;

verus! {

/// The name of a source of packages.
#[derive(Clone, Copy, Debug, Eq, Hash, Ord, PartialEq, PartialOrd, Structural)]
pub enum BackendName {
    FlatpakUser,
    FlatpakSystem,
    Packagekit,
    Pkgar,
    RpmOstree,
    Promin,
}

/// The text of a source's name.
pub open spec fn name_text(name: BackendName) -> Seq<char> {
    match name {
        BackendName::FlatpakUser => "flatpak-user"@,
        BackendName::FlatpakSystem => "flatpak-system"@,
        BackendName::Packagekit => "packagekit"@,
        BackendName::Pkgar => "pkgar"@,
        BackendName::RpmOstree => "rpm-ostree"@,
        BackendName::Promin => "promin"@,
    }
}

/// The texts of the names differ from each other.
pub proof fn lemma_name_texts_differ(a: BackendName, b: BackendName)
    requires
        name_text(a) == name_text(b),
    ensures
        a == b,
{
    reveal_strlit("flatpak-user");
    reveal_strlit("flatpak-system");
    reveal_strlit("packagekit");
    reveal_strlit("pkgar");
    reveal_strlit("rpm-ostree");
    reveal_strlit("promin");
    assert("flatpak-user"@.len() == 12);
    assert("flatpak-system"@.len() == 14);
    assert("packagekit"@.len() == 10 && "packagekit"@[0] == 'p');
    assert("pkgar"@.len() == 5);
    assert("rpm-ostree"@.len() == 10 && "rpm-ostree"@[0] == 'r');
    assert("promin"@.len() == 6);
}

impl BackendName {
    /// The text of the name.
    pub fn as_str(&self) -> (r: &'static str)
        ensures
            r@ == name_text(*self),
    {
        match self {
            BackendName::FlatpakUser => "flatpak-user",
            BackendName::FlatpakSystem => "flatpak-system",
            BackendName::Packagekit => "packagekit",
            BackendName::Pkgar => "pkgar",
            BackendName::RpmOstree => "rpm-ostree",
            BackendName::Promin => "promin",
        }
    }

    /// Tells whether the source is one of Flatpak's.
    pub fn is_flatpak(&self) -> (r: bool)
        ensures
            r <==> (*self == BackendName::FlatpakUser || *self == BackendName::FlatpakSystem),
    {
        matches!(self, BackendName::FlatpakUser | BackendName::FlatpakSystem)
    }

    /// The name as it is shown.
    pub fn to_string(&self) -> (r: String)
        ensures
            r@ == name_text(*self),
    {
        self.as_str().to_string()
    }
}

impl std::str::FromStr for BackendName {
    type Err = String;

    /// The name that reads `s`.
    fn from_str(s: &str) -> (r: Result<Self, String>)
        ensures
            forall|name: BackendName| s@ == #[trigger] name_text(name) ==> r == Ok::<
                BackendName,
                String,
            >(name),
            (forall|name: BackendName| s@ != #[trigger] name_text(name)) ==> r is Err,
            r matches Err(e) ==> e@ == "unknown backend name: "@ + s@,
    {
        let found = if same_text(s, "flatpak-user") {
            Some(BackendName::FlatpakUser)
        } else if same_text(s, "flatpak-system") {
            Some(BackendName::FlatpakSystem)
        } else if same_text(s, "packagekit") {
            Some(BackendName::Packagekit)
        } else if same_text(s, "pkgar") {
            Some(BackendName::Pkgar)
        } else if same_text(s, "rpm-ostree") {
            Some(BackendName::RpmOstree)
        } else if same_text(s, "promin") {
            Some(BackendName::Promin)
        } else {
            None
        };
        match found {
            Some(name) => {
                proof {
                    assert(s@ == name_text(name));
                    assert forall|other: BackendName| s@ == #[trigger] name_text(
                        other,
                    ) implies other == name by {
                        lemma_name_texts_differ(other, name);
                    }
                }
                Ok(name)
            },
            None => Err("unknown backend name: ".to_string().concat(s)),
        }
    }
}

/// The icon of a package's card.
#[derive(Debug, Clone)]
pub enum Icon {
    /// The icon that the catalog gives to the component.
    Component,
    /// An icon of the desktop's theme.
    Named { name: String, size: u16 },
}

/// The contents of an [`Icon`].
#[verifier::ext_equal]
pub enum IconView {
    Component,
    Named { name: Seq<char>, size: u16 },
}

impl View for Icon {
    type V = IconView;

    open spec fn view(&self) -> IconView {
        match self {
            Icon::Component => IconView::Component,
            Icon::Named { name, size } => IconView::Named { name: name@, size: *size },
        }
    }
}

/// The card of a package.
#[derive(Clone, Debug)]
pub struct Package {
    pub id: AppId,
    pub icon: Icon,
    pub info: Arc<AppInfo>,
    pub version: String,
    pub extra: NameMap<String>,
}

/// The contents of a [`Package`].
#[verifier::ext_equal]
pub struct PackageView {
    pub id: Seq<char>,
    pub icon: IconView,
    pub info: AppInfoView,
    pub version: Seq<char>,
    pub extra: Map<Seq<char>, Seq<char>>,
}

impl View for Package {
    type V = PackageView;

    open spec fn view(&self) -> PackageView {
        PackageView {
            id: self.id@,
            icon: self.icon@,
            info: self.info@,
            version: self.version@,
            extra: self.extra.deep_view(),
        }
    }
}

impl DeepView for Package {
    type V = PackageView;

    open spec fn deep_view(&self) -> PackageView {
        self@
    }
}

} // verus!
