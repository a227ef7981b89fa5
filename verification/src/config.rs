//! Settings: where the sync repository lives and which of its top-level
//! names are never synced, with their defaults; the default ignore list.
use vstd::prelude::*;
use crate::path::{FsPath, PathModel, copy_texts};
use crate::text::texts;

verus! {

/// The program's name, also the name of its configuration directory.
pub const APP_NAME: &'static str = "dotmgr";

/// The settings of the program.
#[derive(Debug)]
pub struct AppConfig {
    /// The sync repository.
    pub sync_dir: FsPath,
    /// Top-level names in the repository that are not shown, synced,
    /// deployed or cleaned.
    pub synced_ignores: Vec<String>,
}

/// The value of the settings.
#[verifier::ext_equal]
pub struct ConfigModel {
    pub sync_dir: PathModel,
    pub synced_ignores: Seq<Seq<char>>,
}

impl View for AppConfig {
    type V = ConfigModel;

    open spec fn view(&self) -> ConfigModel {
        ConfigModel { sync_dir: self.sync_dir@, synced_ignores: texts(self.synced_ignores@) }
    }
}

/// The repository names skipped by default.
pub open spec fn default_synced_ignores() -> Seq<Seq<char>> {
    seq![
        ".git"@,
        ".github"@,
        "README.md"@,
        "LICENSE"@,
        "Makefile"@,
        ".gitignore"@,
        ".gitattributes"@,
    ]
}

/// The paths ignored by default.
pub open spec fn default_ignored() -> Seq<Seq<char>> {
    seq![
        "node_modules"@,
        "target"@,
        "__pycache__"@,
        ".venv"@,
        "venv"@,
        ".DS_Store"@,
        "Thumbs.db"@,
    ]
}

/// The default settings for the home directory `home`: the repository
/// `~/.dotfiles` and the default skipped names.
pub open spec fn default_config(home: PathModel) -> ConfigModel {
    ConfigModel {
        sync_dir: PathModel { absolute: home.absolute, parts: home.parts.push(".dotfiles"@) },
        synced_ignores: default_synced_ignores(),
    }
}

fn texts_from(items: [&str; 7]) -> (r: Vec<String>)
    ensures
        texts(r@) == seq![items[0]@, items[1]@, items[2]@, items[3]@, items[4]@, items[5]@, items[6]@],
{
    let mut r: Vec<String> = Vec::new();
    r.push(String::from_str(items[0]));
    r.push(String::from_str(items[1]));
    r.push(String::from_str(items[2]));
    r.push(String::from_str(items[3]));
    r.push(String::from_str(items[4]));
    r.push(String::from_str(items[5]));
    r.push(String::from_str(items[6]));
    proof {
        assert(texts(r@) =~= seq![items[0]@, items[1]@, items[2]@, items[3]@, items[4]@, items[5]@, items[6]@]);
    }
    r
}

/// The paths ignored when no ignore list has been saved yet.
pub fn default_ignores() -> (r: Vec<String>)
    ensures
        texts(r@) == default_ignored(),
{
    texts_from(["node_modules", "target", "__pycache__", ".venv", "venv", ".DS_Store", "Thumbs.db"])
}

impl AppConfig {
    /// The default settings for the home directory `home`.
    pub fn default_in(home: &FsPath) -> (r: AppConfig)
        ensures
            r@ == default_config(home@),
    {
        let name = String::from_str(".dotfiles");
        let sync_dir = home.child(&name);
        let synced_ignores = texts_from([".git", ".github", "README.md", "LICENSE", "Makefile", ".gitignore", ".gitattributes"]);
        let r = AppConfig { sync_dir, synced_ignores };
        proof {
            assert(r@ =~= default_config(home@));
        }
        r
    }
}

/// The settings in effect, given those read from the settings file (`None`
/// when there is no file or it does not parse): each empty setting is
/// replaced by its default.
pub open spec fn resolved_config(loaded: Option<ConfigModel>, home: PathModel) -> ConfigModel {
    match loaded {
        None => default_config(home),
        Some(c) => ConfigModel {
            sync_dir: if !c.sync_dir.absolute && c.sync_dir.parts.len() == 0 {
                default_config(home).sync_dir
            } else {
                c.sync_dir
            },
            synced_ignores: if c.synced_ignores.len() == 0 {
                default_synced_ignores()
            } else {
                c.synced_ignores
            },
        },
    }
}

/// The settings in effect, given those read from the settings file, if any.
pub fn resolve_config(loaded: Option<AppConfig>, home: &FsPath) -> (r: AppConfig)
    ensures
        r@ == resolved_config(match loaded { Some(c) => Some(c@), None => None }, home@),
{
    let default_cfg = AppConfig::default_in(home);
    match loaded {
        None => default_cfg,
        Some(cfg) => {
            let AppConfig { sync_dir, synced_ignores } = cfg;
            let sync_dir = if sync_dir.is_empty() { default_cfg.sync_dir } else { sync_dir };
            let synced_ignores = if synced_ignores.len() == 0 {
                default_cfg.synced_ignores
            } else {
                synced_ignores
            };
            let r = AppConfig { sync_dir, synced_ignores };
            proof {
                assert(r@ =~= resolved_config(Some(cfg@), home@));
            }
            r
        },
    }
}

/// The ignore list in effect, given the one read from the ignore file
/// (`None` when it does not parse): the default list when there is none.
pub fn ignores_or_default(parsed: Option<Vec<String>>) -> (r: Vec<String>)
    ensures
        texts(r@) == match parsed {
            Some(v) => texts(v@),
            None => default_ignored(),
        },
{
    match parsed {
        Some(v) => v,
        None => default_ignores(),
    }
}

/// A copy of the settings.
pub fn copy_config(c: &AppConfig) -> (r: AppConfig)
    ensures
        r@ == c@,
{
    AppConfig { sync_dir: c.sync_dir.duplicate(), synced_ignores: copy_texts(&c.synced_ignores) }
}

/// Each setting falls back to its default on its own: a repository path
/// read from the file is kept when it is not empty, whatever the skipped
/// names hold, and skipped names read from the file are kept when there
/// are any, whatever the repository path is; an empty setting becomes its
/// default. Two files that agree on one setting resolve it alike.
pub proof fn lemma_settings_independent(c: ConfigModel, other: ConfigModel, home: PathModel)
    ensures
        (c.sync_dir.absolute || c.sync_dir.parts.len() > 0) ==> resolved_config(Some(c), home).sync_dir == c.sync_dir,
        !(c.sync_dir.absolute || c.sync_dir.parts.len() > 0) ==> resolved_config(Some(c), home).sync_dir
            == resolved_config(None, home).sync_dir,
        c.synced_ignores.len() > 0 ==> resolved_config(Some(c), home).synced_ignores == c.synced_ignores,
        c.synced_ignores.len() == 0 ==> resolved_config(Some(c), home).synced_ignores
            == resolved_config(None, home).synced_ignores,
        c.sync_dir == other.sync_dir ==> resolved_config(Some(c), home).sync_dir
            == resolved_config(Some(other), home).sync_dir,
        c.synced_ignores == other.synced_ignores ==> resolved_config(Some(c), home).synced_ignores
            == resolved_config(Some(other), home).synced_ignores,
        resolved_config(None, home).sync_dir == (PathModel { absolute: home.absolute, parts: home.parts.push(".dotfiles"@) }),
{
}

} // verus!
