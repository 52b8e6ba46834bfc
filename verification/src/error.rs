//! Why the locator gave nothing back.

use vstd::prelude::*;

verus! {

/// Why a search found nothing.
#[derive(Clone, Copy, Debug, PartialEq, Eq, Structural)]
pub enum NotFound {
    /// The search-path variable could not be read.
    SearchPathUnreadable,
    /// The directory to search below is not a directory.
    NotADirectory,
    /// Nothing that was looked at is there.
    NoMatch,
}

/// The variables of the environment that resolution cannot do without.
#[derive(Clone, Copy, Debug, PartialEq, Eq, Structural)]
pub enum RequiredVariable {
    /// `APPDATA`, on Windows.
    AppData,
    /// `LOCALAPPDATA`, on Windows.
    LocalAppData,
    /// `HOME`, on macOS and Linux.
    Home,
}

/// Why resolution gave no paths at all.
#[derive(Debug, Clone, PartialEq, Eq)]
pub enum ResolveError {
    /// A variable of the environment that is needed could not be read.
    MissingVariable(RequiredVariable),
    /// The operating system, by its name, is none of the supported families.
    UnsupportedOs(String),
    /// The directory of the storage file could not be created; the text says why.
    DirectoryCreation(String),
}

/// `ResolveError`, with its texts as sequences of characters.
pub enum ResolveErrorView {
    MissingVariable(RequiredVariable),
    UnsupportedOs(Seq<char>),
    DirectoryCreation(Seq<char>),
}

impl View for ResolveError {
    type V = ResolveErrorView;

    open spec fn view(&self) -> ResolveErrorView {
        match self {
            ResolveError::MissingVariable(v) => ResolveErrorView::MissingVariable(*v),
            ResolveError::UnsupportedOs(name) => ResolveErrorView::UnsupportedOs(name@),
            ResolveError::DirectoryCreation(why) => ResolveErrorView::DirectoryCreation(why@),
        }
    }
}

/// Why the application was not launched.
#[derive(Debug, Clone, PartialEq, Eq)]
pub enum LaunchError {
    /// There is no executable to launch.
    ExecutableMissing,
    /// The operating system refused to start the executable; the text says why.
    SpawnFailed(String),
}

/// `LaunchError`, with its text as a sequence of characters.
pub enum LaunchErrorView {
    ExecutableMissing,
    SpawnFailed(Seq<char>),
}

impl View for LaunchError {
    type V = LaunchErrorView;

    open spec fn view(&self) -> LaunchErrorView {
        match self {
            LaunchError::ExecutableMissing => LaunchErrorView::ExecutableMissing,
            LaunchError::SpawnFailed(why) => LaunchErrorView::SpawnFailed(why@),
        }
    }
}

/// A found path, or the reason there is none, with the path as a sequence of characters.
pub open spec fn found_view(r: Result<String, NotFound>) -> Result<Seq<char>, NotFound> {
    match r {
        Ok(path) => Ok(path@),
        Err(e) => Err(e),
    }
}

} // verus!
