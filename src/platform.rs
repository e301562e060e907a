use vstd::prelude::*;

verus! {

/// File name of the message database inside the application data directory.
pub const DATABASE_FILE: &'static str = "ostia.db";

/// The platform name for an operating-system identifier as Rust names it
/// (`std::env::consts::OS`); "unknown" for any other.
pub fn get_platform_name(os: &str) -> (r: &'static str)
    ensures
        r@ == if os@ == "windows"@ {
            "windows"@
        } else if os@ == "macos"@ {
            "macos"@
        } else if os@ == "linux"@ {
            "linux"@
        } else if os@ == "android"@ {
            "android"@
        } else if os@ == "ios"@ {
            "ios"@
        } else {
            "unknown"@
        },
{
    if crate::text::str_eq(os, "windows") {
        "windows"
    } else if crate::text::str_eq(os, "macos") {
        "macos"
    } else if crate::text::str_eq(os, "linux") {
        "linux"
    } else if crate::text::str_eq(os, "android") {
        "android"
    } else if crate::text::str_eq(os, "ios") {
        "ios"
    } else {
        "unknown"
    }
}

/// The database location: `app_name` under the platform data directory, then the
/// database file; `None` when the platform has no data directory.
pub fn get_database_path(data_dir: Option<&str>, app_name: &str) -> (r: Option<String>)
    ensures
        match data_dir {
            Some(d) => r matches Some(p) && p@ == d@ + "/"@ + app_name@ + "/"@ + DATABASE_FILE@,
            None => r is None,
        },
{
    match data_dir {
        Some(d) => {
            let p = d.to_owned().concat("/").concat(app_name).concat("/").concat(DATABASE_FILE);
            Some(p)
        },
        None => None,
    }
}

} // verus!
