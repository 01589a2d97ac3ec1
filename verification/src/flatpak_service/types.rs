//! Domain types: installed refs, remotes, details, history, search hits.

use vstd::prelude::*;

verus! {

/// Which Flatpak installation a ref or remote belongs to.
#[derive(Debug, Clone, Copy, PartialEq, Eq, Structural)]
pub enum Installation {
    System,
    User,
}

/// The name flatpak uses for an installation on its command line.
pub open spec fn installation_name(i: Installation) -> Seq<char> {
    match i {
        Installation::System => seq!['s', 'y', 's', 't', 'e', 'm'],
        Installation::User => seq!['u', 's', 'e', 'r'],
    }
}

impl Installation {
    /// The installation's display text: `system` or `user`.
    pub fn to_string(&self) -> (r: String)
        ensures
            r@ == installation_name(*self),
    {
        let mut s = String::new();
        match self {
            Installation::System => {
                crate::text::push_str(&mut s, "system");
                proof { reveal_strlit("system"); }
            },
            Installation::User => {
                crate::text::push_str(&mut s, "user");
                proof { reveal_strlit("user"); }
            },
        }
        assert(s@ =~= installation_name(*self));
        s
    }
}

/// Whether a ref is an application or a runtime.
#[derive(Debug, Clone, Copy, PartialEq, Eq, Structural)]
pub enum Kind {
    App,
    Runtime,
}

/// One installed application or runtime, as `flatpak list` reports it.
#[derive(Debug, PartialEq, Eq)]
pub struct AppRef {
    pub name: String,
    pub description: String,
    pub id: String,
    pub version: String,
    pub branch: String,
    pub arch: String,
    pub origin: String,
    pub installation: Installation,
    pub size_bytes: u64,
    pub ref_: String,
    pub kind: Kind,
}

impl Clone for AppRef {
    fn clone(&self) -> (r: Self)
        ensures
            r == *self,
    {
        AppRef {
            name: self.name.clone(),
            description: self.description.clone(),
            id: self.id.clone(),
            version: self.version.clone(),
            branch: self.branch.clone(),
            arch: self.arch.clone(),
            origin: self.origin.clone(),
            installation: self.installation,
            size_bytes: self.size_bytes,
            ref_: self.ref_.clone(),
            kind: self.kind,
        }
    }
}

/// The abstract value of an `AppRef`: its texts as character sequences.
pub struct AppRefView {
    pub name: Seq<char>,
    pub description: Seq<char>,
    pub id: Seq<char>,
    pub version: Seq<char>,
    pub branch: Seq<char>,
    pub arch: Seq<char>,
    pub origin: Seq<char>,
    pub installation: Installation,
    pub size_bytes: u64,
    pub ref_: Seq<char>,
    pub kind: Kind,
}

impl View for AppRef {
    type V = AppRefView;

    open spec fn view(&self) -> AppRefView {
        AppRefView {
            name: self.name@,
            description: self.description@,
            id: self.id@,
            version: self.version@,
            branch: self.branch@,
            arch: self.arch@,
            origin: self.origin@,
            installation: self.installation,
            size_bytes: self.size_bytes,
            ref_: self.ref_@,
            kind: self.kind,
        }
    }
}

/// A configured remote repository.
#[derive(Debug, Clone, PartialEq, Eq)]
pub struct Remote {
    pub name: String,
    pub title: String,
    pub url: String,
    pub installation: Installation,
    pub disabled: bool,
    pub priority: i32,
}

/// The abstract value of a `Remote`.
pub struct RemoteView {
    pub name: Seq<char>,
    pub title: Seq<char>,
    pub url: Seq<char>,
    pub installation: Installation,
    pub disabled: bool,
    pub priority: i32,
}

impl View for Remote {
    type V = RemoteView;

    open spec fn view(&self) -> RemoteView {
        RemoteView {
            name: self.name@,
            title: self.title@,
            url: self.url@,
            installation: self.installation,
            disabled: self.disabled,
            priority: self.priority,
        }
    }
}

/// One permission table of an application and its entries.
#[derive(Debug, Clone, PartialEq, Eq)]
pub struct Permission {
    pub table: String,
    pub entries: Vec<String>,
}

/// The abstract value of a `Permission`.
pub struct PermissionView {
    pub table: Seq<char>,
    pub entries: Seq<Seq<char>>,
}

impl View for Permission {
    type V = PermissionView;

    open spec fn view(&self) -> PermissionView {
        PermissionView { table: self.table@, entries: self.entries@.map_values(|e: String| e@) }
    }
}

/// Everything `flatpak info` tells about an installed ref.
/// `date` is the commit time in seconds since the Unix epoch (UTC).
#[derive(Debug, Clone, PartialEq, Eq)]
pub struct AppDetail {
    pub basic: AppRef,
    pub runtime: Option<String>,
    pub sdk: Option<String>,
    pub license: Option<String>,
    pub installed_size: u64,
    pub commit: String,
    pub subject: String,
    pub date: Option<i64>,
    pub permissions: Vec<Permission>,
}

/// One line of `flatpak history`; `time` is in seconds since the Unix epoch (UTC).
#[derive(Debug, Clone, PartialEq, Eq)]
pub struct HistoryEntry {
    pub time: i64,
    pub ref_: String,
    pub operation: String,
    pub user: String,
}

/// The abstract value of a `HistoryEntry`.
pub struct HistoryEntryView {
    pub time: i64,
    pub ref_: Seq<char>,
    pub operation: Seq<char>,
    pub user: Seq<char>,
}

impl View for HistoryEntry {
    type V = HistoryEntryView;

    open spec fn view(&self) -> HistoryEntryView {
        HistoryEntryView {
            time: self.time,
            ref_: self.ref_@,
            operation: self.operation@,
            user: self.user@,
        }
    }
}

/// One result of `flatpak search`.
#[derive(Debug, Clone, PartialEq, Eq)]
pub struct SearchHit {
    pub name: String,
    pub id: String,
    pub description: String,
    pub version: String,
    pub branch: String,
    pub remotes: Vec<String>,
}

/// The abstract value of a `SearchHit`.
pub struct SearchHitView {
    pub name: Seq<char>,
    pub id: Seq<char>,
    pub description: Seq<char>,
    pub version: Seq<char>,
    pub branch: Seq<char>,
    pub remotes: Seq<Seq<char>>,
}

impl View for SearchHit {
    type V = SearchHitView;

    open spec fn view(&self) -> SearchHitView {
        SearchHitView {
            name: self.name@,
            id: self.id@,
            description: self.description@,
            version: self.version@,
            branch: self.branch@,
            remotes: self.remotes@.map_values(|r: String| r@),
        }
    }
}

} // verus!
