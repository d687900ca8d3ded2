use crate::text::{join_path, joined_path};
use vstd::prelude::*;

verus! {

/// Where the configuration is kept on disk.
#[derive(Debug)]
pub struct ConfigStore {
    path: String,
}

/// The place of the configuration file under a directory for
/// configurations.
pub open spec fn config_file_under(dir: Seq<char>) -> Seq<char> {
    joined_path(joined_path(dir, "bitcoin-rpc-web"@), "config.json"@)
}

/// The place of the configuration file: under `XDG_CONFIG_HOME` where that
/// is set, else under `.config` in the home directory; nowhere where
/// neither is set.
pub open spec fn default_path(xdg_config_home: Option<Seq<char>>, home: Option<Seq<char>>)
    -> Option<Seq<char>> {
    match xdg_config_home {
        Some(dir) => Some(config_file_under(dir)),
        None => match home {
            Some(dir) => Some(config_file_under(joined_path(dir, ".config"@))),
            None => None,
        },
    }
}

/// The value of a text that may be missing.
pub open spec fn text_view(text: Option<&str>) -> Option<Seq<char>> {
    match text {
        Some(t) => Some(t@),
        None => None,
    }
}

impl ConfigStore {
    pub closed spec fn spec_path(&self) -> Seq<char> {
        self.path@
    }

    /// The store at the default place, given what the environment says of
    /// `XDG_CONFIG_HOME` and `HOME`.
    pub fn new(xdg_config_home: Option<&str>, home: Option<&str>) -> (r: Result<
        ConfigStore,
        String,
    >)
        ensures
            match r {
                Ok(store) => default_path(text_view(xdg_config_home), text_view(home)) == Some(
                    store.spec_path(),
                ),
                Err(reason) => default_path(text_view(xdg_config_home), text_view(home)) is None
                    && reason@ == "HOME is not set"@,
            },
    {
        let dir = match xdg_config_home {
            Some(dir) => dir.to_owned(),
            None => match home {
                Some(dir) => join_path(dir, ".config"),
                None => {
                    return Err("HOME is not set".to_owned());
                },
            },
        };
        let under = join_path(dir.as_str(), "bitcoin-rpc-web");
        Ok(ConfigStore { path: join_path(under.as_str(), "config.json") })
    }

    /// The store at a given place.
    pub fn at(path: &str) -> (r: ConfigStore)
        ensures
            r.spec_path() == path@,
    {
        ConfigStore { path: path.to_owned() }
    }

    /// Where the configuration is kept.
    pub fn path(&self) -> (r: &str)
        ensures
            r@ == self.spec_path(),
    {
        self.path.as_str()
    }

    pub fn duplicate(&self) -> (r: ConfigStore)
        ensures
            r.spec_path() == self.spec_path(),
    {
        ConfigStore { path: self.path.clone() }
    }
}

impl Clone for ConfigStore {
    fn clone(&self) -> (r: ConfigStore)
        ensures
            r.spec_path() == self.spec_path(),
    {
        self.duplicate()
    }
}

} // verus!
