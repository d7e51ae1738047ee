//! Where the application keeps its configuration and database.

use vstd::prelude::*;

verus! {

pub struct Configuration {
    pub version: String,
    pub development_mode: bool,
    pub config_path: String,
    pub db_path: String,
}

/// `rel` appended to `base` as a path: a `/` goes between them unless `base`
/// is empty or already ends in one.
pub open spec fn joined(base: Seq<char>, rel: Seq<char>) -> Seq<char> {
    if base.len() == 0 || base.last() == '/' {
        base + rel
    } else {
        base + seq!['/'] + rel
    }
}

/// `rel` appended to `base` as a path (see `joined`).
pub fn join_path(base: &str, rel: &str) -> (r: String)
    ensures
        r@ == joined(base@, rel@),
{
    let n = base.unicode_len();
    let mut r = String::from_str(base);
    if n > 0 && base.get_char(n - 1) != '/' {
        r.append("/");
        proof {
            reveal_strlit("/");
            assert("/"@ == seq!['/']);
        }
    }
    r.append(rel);
    r
}

impl Configuration {
    /// The configuration of a development build: files in the working
    /// directory.
    pub fn init_development_config() -> (r: Configuration)
        ensures
            r.version@ == "0.1.0-dev"@,
            r.development_mode,
            r.config_path@ == "./config.toml"@,
            r.db_path@ == "./file.db"@,
    {
        Configuration {
            version: String::from_str("0.1.0-dev"),
            development_mode: true,
            config_path: String::from_str("./config.toml"),
            db_path: String::from_str("./file.db"),
        }
    }

    /// The configuration of a development build where `development_build`
    /// holds; otherwise that of a release, with its files under
    /// `.config/.timers` in `home_dir`.
    pub fn load(development_build: bool, home_dir: &str) -> (r: Configuration)
        ensures
            development_build ==> {
                &&& r.version@ == "0.1.0-dev"@
                &&& r.development_mode
                &&& r.config_path@ == "./config.toml"@
                &&& r.db_path@ == "./file.db"@
            },
            !development_build ==> {
                &&& r.version@ == "0.1.0"@
                &&& !r.development_mode
                &&& r.config_path@ == joined(home_dir@, ".config/.timers/config.toml"@)
                &&& r.db_path@ == joined(home_dir@, ".config/.timers/db.sqlite"@)
            },
    {
        if development_build {
            return Configuration::init_development_config();
        }
        Configuration {
            version: String::from_str("0.1.0"),
            development_mode: false,
            config_path: join_path(home_dir, ".config/.timers/config.toml"),
            db_path: join_path(home_dir, ".config/.timers/db.sqlite"),
        }
    }
}

} // verus!
