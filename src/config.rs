use vstd::prelude::*;

verus! {

/// Port the service listens on when none is given.
pub const DEFAULT_PORT: u16 = 3000;

/// Settings read once at startup and handed to the parts that need them.
pub struct Config {
    pub help: bool,
    pub port: u16,
    pub db_path: String,
}

/// Path of the database file when none is given.
pub open spec fn default_db_path() -> Seq<char> {
    "./urls.db_3"@
}

impl Default for Config {
    fn default() -> (r: Config)
        ensures
            !r.help,
            r.port == DEFAULT_PORT,
            r.db_path@ == default_db_path(),
    {
        Config { help: false, port: DEFAULT_PORT, db_path: String::from_str("./urls.db_3") }
    }
}

impl Config {
    /// Builds the settings from the options found on the command line,
    /// falling back to the defaults for the ones that are absent.
    pub fn from_options(help: bool, port: Option<u16>, db_path: Option<String>) -> (r: Config)
        ensures
            r.help == help,
            r.port == match port {
                Some(p) => p,
                None => DEFAULT_PORT,
            },
            r.db_path@ == match db_path {
                Some(p) => p@,
                None => default_db_path(),
            },
    {
        let port = match port {
            Some(p) => p,
            None => DEFAULT_PORT,
        };
        let db_path = match db_path {
            Some(p) => p,
            None => String::from_str("./urls.db_3"),
        };
        Config { help, port, db_path }
    }
}

} // verus!
