//! The options of the `search` and `show` commands.
use vstd::prelude::*;

verus! {

/// Channel selection options; there are none yet.
pub struct ChannelArgs {}

/// Search for packages to install.
pub struct Search {
    /// Print the search results as JSON.
    pub json: bool,
    /// Force an update of catalogs from remote sources before searching.
    pub refresh: bool,
    /// A term `<REGEX>[@<SEMVER-RANGE>]` matched against package names,
    /// descriptions and versions.
    pub search_term: String,
}

/// Show detailed package information.
pub struct Show {
    /// Whether to show all available package versions.
    pub all: bool,
    /// The package to show, an exact package name such as one printed by a search.
    pub search_term: String,
}

} // verus!
