use vstd::prelude::*;

verus! {

/// The name of the configuration file in the home directory.
pub open spec fn in_home(home: Seq<char>) -> Seq<char> {
    home + "/.ld"@
}

/// Relies on home::home_dir: the current user's home directory, if one can be
/// found; `None` also where its path is not valid Unicode. It depends on the
/// environment, so nothing is stated of it.
#[verifier::external_body]
fn home_directory() -> (r: Option<String>) {
    home::home_dir().and_then(|p| p.into_os_string().into_string().ok())
}

/// The configuration path inside the home directory `home`.
pub fn config_path_in(home: &str) -> (r: String)
    ensures
        r@ == in_home(home@),
{
    String::from_str(home).concat("/.ld")
}

/// The configuration path inside the current user's home directory; `None`
/// where no home directory can be found.
pub fn default_config_path() -> (r: Option<String>)
    ensures
        r is Some ==> exists|home: Seq<char>| r->Some_0@ == in_home(home),
{
    match home_directory() {
        Some(home) => Some(config_path_in(home.as_str())),
        None => None,
    }
}

/// Where the configuration is kept: `override_path` where one is given, else
/// the default location, which may not be found.
pub fn config_location(override_path: Option<String>) -> (r: Option<String>)
    ensures
        override_path is Some ==> r == override_path,
        override_path is None ==> (r is Some ==> exists|home: Seq<char>| r->Some_0@ == in_home(home)),
{
    match override_path {
        Some(p) => Some(p),
        None => default_config_path(),
    }
}

} // verus!
