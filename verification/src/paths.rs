//! Where the application keeps its data (Linux layout: `~/.quark`).

use vstd::prelude::*;

use crate::training::{join_path, path_join};

verus! {

/// The user's home directory (`dirs::home_dir`), as text. It comes from the
/// environment and the user database, so nothing is claimed of it.
#[verifier::external_body]
fn home_dir() -> (r: Option<String>) {
    match dirs::home_dir() {
        Some(p) => Some(p.to_string_lossy().into_owned()),
        None => None,
    }
}

/// The data directory under the home directory `home` (`.` when there is
/// none).
pub open spec fn data_dir_of(home: Option<Seq<char>>) -> Seq<char> {
    path_join(
        match home {
            Some(h) => h,
            None => "."@,
        },
        ".quark"@,
    )
}

/// The data directory for the home directory `home`.
pub fn data_dir_for(home: Option<String>) -> (r: String)
    ensures
        r@ == data_dir_of(match home {
            Some(h) => Some(h@),
            None => None,
        }),
{
    match home {
        Some(h) => join_path(h.as_str(), ".quark"),
        None => join_path(".", ".quark"),
    }
}

/// The root directory of all persistent user data (datasets, checkpoints,
/// settings).
pub fn app_data_dir() -> (r: String)
    ensures
        exists|home: Option<Seq<char>>| r@ == data_dir_of(home),
{
    let home = home_dir();
    let ghost h = match &home {
        Some(x) => Some(x@),
        None => None,
    };
    let r = data_dir_for(home);
    assert(r@ == data_dir_of(h));
    r
}

/// `name` inside the data directory.
fn in_data_dir(name: &str) -> (r: String)
    ensures
        exists|home: Option<Seq<char>>| r@ == path_join(data_dir_of(home), name@),
{
    let d = app_data_dir();
    let ghost home = choose|home: Option<Seq<char>>| d@ == data_dir_of(home);
    let r = join_path(d.as_str(), name);
    assert(r@ == path_join(data_dir_of(home), name@));
    r
}

/// `<data dir>/settings.toml`.
pub fn settings_path() -> (r: String)
    ensures
        exists|home: Option<Seq<char>>| r@ == path_join(data_dir_of(home), "settings.toml"@),
{
    in_data_dir("settings.toml")
}

/// `<data dir>/the-pile`, the root of Pile dataset builds.
pub fn pile_data_dir() -> (r: String)
    ensures
        exists|home: Option<Seq<char>>| r@ == path_join(data_dir_of(home), "the-pile"@),
{
    in_data_dir("the-pile")
}

/// `<data dir>/checkpoints`.
pub fn checkpoints_dir() -> (r: String)
    ensures
        exists|home: Option<Seq<char>>| r@ == path_join(data_dir_of(home), "checkpoints"@),
{
    in_data_dir("checkpoints")
}

/// `<data dir>/datasets`, where downloaded JSONL files live.
pub fn datasets_dir() -> (r: String)
    ensures
        exists|home: Option<Seq<char>>| r@ == path_join(data_dir_of(home), "datasets"@),
{
    in_data_dir("datasets")
}

} // verus!
