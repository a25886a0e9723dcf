//! Configuration values handed to the library: the stores and the worker.

use vstd::prelude::*;

verus! {

/// One store the worker knows how to process.
#[derive(Debug, Clone)]
pub struct StoreConfig {
    pub id: String,
    pub name: String,
    pub enabled: bool,
}

/// Where receipts live, how to start the worker, and the configured stores.
#[derive(Debug, Clone)]
pub struct AppConfig {
    pub receipts_root: String,
    pub worker_dir: Option<String>,
    pub worker_run_cmd: Option<String>,
    pub stores: Vec<StoreConfig>,
}

/// The ids of a list of store configurations, in order.
pub open spec fn store_ids(stores: Seq<StoreConfig>) -> Seq<Seq<char>> {
    stores.map_values(|s: StoreConfig| s.id@)
}

/// The stores used when no store list can be found: Lidl enabled, Kaufland
/// and Carrefour disabled.
pub fn default_stores() -> (r: Vec<StoreConfig>)
    ensures
        store_ids(r@) == seq!["lidl"@, "kaufland"@, "carrefour"@],
        r@.len() == 3,
        r@[0].name@ == "Lidl"@ && r@[0].enabled,
        r@[1].name@ == "Kaufland"@ && !r@[1].enabled,
        r@[2].name@ == "Carrefour"@ && !r@[2].enabled,
{
    let mut r: Vec<StoreConfig> = Vec::new();
    r.push(
        StoreConfig {
            id: String::from_str("lidl"),
            name: String::from_str("Lidl"),
            enabled: true,
        },
    );
    r.push(
        StoreConfig {
            id: String::from_str("kaufland"),
            name: String::from_str("Kaufland"),
            enabled: false,
        },
    );
    r.push(
        StoreConfig {
            id: String::from_str("carrefour"),
            name: String::from_str("Carrefour"),
            enabled: false,
        },
    );
    assert(store_ids(r@) =~= seq!["lidl"@, "kaufland"@, "carrefour"@]);
    r
}

/// The application source directory: the custom location when it exists,
/// otherwise the default location when it exists, otherwise none.
pub open spec fn chosen_source_dir(
    custom: Option<Seq<char>>,
    custom_exists: bool,
    fallback: Option<Seq<char>>,
    fallback_exists: bool,
) -> Option<Seq<char>> {
    if custom.is_some() && custom_exists {
        custom
    } else if fallback.is_some() && fallback_exists {
        fallback
    } else {
        None
    }
}

pub open spec fn opt_view(o: Option<String>) -> Option<Seq<char>> {
    match o {
        Some(s) => Some(s@),
        None => None,
    }
}

/// Picks the application source directory among a custom and a default
/// location, given whether each exists on disk.
pub fn resolve_source_dir(
    custom: Option<String>,
    custom_exists: bool,
    fallback: Option<String>,
    fallback_exists: bool,
) -> (r: Option<String>)
    ensures
        opt_view(r) == chosen_source_dir(
            opt_view(custom),
            custom_exists,
            opt_view(fallback),
            fallback_exists,
        ),
{
    if let Some(path) = custom {
        if custom_exists {
            return Some(path);
        }
    }
    if let Some(path) = fallback {
        if fallback_exists {
            return Some(path);
        }
    }
    None
}


/// The update state for an installed version and the version in the source
/// directory: up to date when they are equal, an update available otherwise.
pub open spec fn update_state_of(installed: Seq<char>, source: Seq<char>) -> Seq<char> {
    if installed == source {
        "up_to_date"@
    } else {
        "update_available"@
    }
}

/// The update state for an installed version and a source version.
pub fn update_state(installed: &String, source: &String) -> (r: String)
    ensures
        r@ == update_state_of(installed@, source@),
{
    if *installed == *source {
        String::from_str("up_to_date")
    } else {
        String::from_str("update_available")
    }
}

} // verus!
