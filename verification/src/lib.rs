use vstd::prelude::*;

pub mod guards;
pub mod comps;
pub mod controls;
pub mod favicons;
pub mod feed_bytes;
pub mod localize;
pub mod model;
pub mod pages;
pub mod per;
pub mod settings;
pub mod text;
pub mod views;

verus! {

/// The data directory on a desktop system.
pub fn dir() -> (res: String)
    ensures
        res@ == "/home/me/.local/share/unirss"@,
{
    dir_on(false)
}

/// The data directory on an Android device (`android`) or a desktop system.
pub fn dir_on(android: bool) -> (res: String)
    ensures
        android ==> res@ == "/storage/emulated/0/.uni/unirss"@,
        !android ==> res@ == "/home/me/.local/share/unirss"@,
{
    if android {
        String::from_str("/storage/emulated/0/.uni/unirss")
    } else {
        String::from_str("/home/me/.local/share/unirss")
    }
}

} // verus!
