//! Where the UI bundle's entry page is looked for.

use vstd::prelude::*;

verus! {

/// The location an entry page was found at.
#[derive(Debug, PartialEq, Eq, Structural)]
pub enum EntrySource {
    /// Inside the packaged application, relative to the executable's grandparent directory.
    Bundle,
    /// Inside the development tree, relative to the working directory.
    Development,
}

/// The entry page's path inside the packaged application.
pub fn bundle_entry() -> (r: &'static str)
    ensures
        r@ == "Resources/dist/index.html"@,
{
    "Resources/dist/index.html"
}

/// The entry page's path inside the development tree.
pub fn development_entry() -> (r: &'static str)
    ensures
        r@ == "frontend/dist/index.html"@,
{
    "frontend/dist/index.html"
}

/// The error text when neither location holds the entry page.
pub fn entry_missing_message() -> (r: &'static str)
    ensures
        r@ == "index.html not found in .app bundle or dev path"@,
{
    "index.html not found in .app bundle or dev path"
}

/// Picks the entry page: the packaged one when it exists, else the
/// development one when it exists, else none.
pub fn choose_entry(bundle_found: bool, development_found: bool) -> (r: Option<EntrySource>)
    ensures
        bundle_found ==> r == Some(EntrySource::Bundle),
        !bundle_found && development_found ==> r == Some(EntrySource::Development),
        !bundle_found && !development_found ==> r.is_none(),
{
    if bundle_found {
        Some(EntrySource::Bundle)
    } else if development_found {
        Some(EntrySource::Development)
    } else {
        None
    }
}

/// The URL that loads the local file at `path`.
pub fn file_url(path: &str) -> (r: String)
    ensures
        r@ == "file://"@ + path@,
{
    let mut r = "file://".to_owned();
    r.append(path);
    r
}

} // verus!
