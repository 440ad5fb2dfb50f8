//! The application's configuration.

use crate::domain::file_meta::{clone_texts, texts};
use crate::paths::{self, is_absolute_spec, is_under_spec, join_spec, parent_spec};
use crate::text;
use vstd::prelude::*;

verus! {

/// `directories::ProjectDirs::from`, `ProjectDirs::data_dir` and
/// `ProjectDirs::config_dir` for the application `rmz`: the data and the
/// configuration directory of the present user, or `None` where no home
/// directory is known. Nothing is claimed of what comes back.
#[verifier::external_body]
fn project_dirs() -> (r: Option<(String, String)>) {
    directories::ProjectDirs::from("", "", "rmz").map(
        |dirs|
            (
                dirs.data_dir().to_string_lossy().into_owned(),
                dirs.config_dir().to_string_lossy().into_owned(),
            ),
    )
}

/// Application configuration.
#[derive(Debug, PartialEq, Eq)]
pub struct Config {
    /// Path to the trash zone directory.
    pub trash_path: String,
    /// Paths that are protected from deletion.
    pub protected_paths: Vec<String>,
    /// Clean files older than this many days; `None` turns it off.
    pub auto_clean_days: Option<u32>,
    /// Largest size of the trash zone in bytes; `None` sets no limit.
    pub max_trash_size: Option<u64>,
    /// Coloured output.
    pub colors: bool,
    /// Whether confirmations are asked for.
    pub require_confirmation: bool,
    /// Whether the fuzzy finder is used when it is there.
    pub use_fzf: bool,
    /// Date format for display.
    pub date_format: String,
}

/// What a `Config` holds, as mathematical values.
pub struct ConfigView {
    pub trash_path: Seq<char>,
    pub protected_paths: Seq<Seq<char>>,
    pub auto_clean_days: Option<u32>,
    pub max_trash_size: Option<u64>,
    pub colors: bool,
    pub require_confirmation: bool,
    pub use_fzf: bool,
    pub date_format: Seq<char>,
}

impl View for Config {
    type V = ConfigView;

    open spec fn view(&self) -> ConfigView {
        ConfigView {
            trash_path: self.trash_path@,
            protected_paths: texts(self.protected_paths@),
            auto_clean_days: self.auto_clean_days,
            max_trash_size: self.max_trash_size,
            colors: self.colors,
            require_confirmation: self.require_confirmation,
            use_fzf: self.use_fzf,
            date_format: self.date_format@,
        }
    }
}

impl Clone for Config {
    fn clone(&self) -> (r: Self)
        ensures
            r@ == self@,
    {
        Config {
            trash_path: self.trash_path.clone(),
            protected_paths: clone_texts(&self.protected_paths),
            auto_clean_days: self.auto_clean_days,
            max_trash_size: self.max_trash_size,
            colors: self.colors,
            require_confirmation: self.require_confirmation,
            use_fzf: self.use_fzf,
            date_format: self.date_format.clone(),
        }
    }
}

/// The system directories that are protected from the start.
pub open spec fn system_paths() -> Seq<Seq<char>> {
    seq![
        "/bin"@,
        "/boot"@,
        "/dev"@,
        "/etc"@,
        "/lib"@,
        "/lib64"@,
        "/proc"@,
        "/root"@,
        "/run"@,
        "/sbin"@,
        "/sys"@,
        "/usr"@,
        "/var"@,
    ]
}

/// The largest size of the trash zone unless configured: one gibibyte.
pub const DEFAULT_MAX_TRASH_SIZE: u64 = 1_073_741_824;

/// The default configuration with the trash zone at `trash_path`.
pub open spec fn default_with(trash_path: Seq<char>) -> ConfigView {
    ConfigView {
        trash_path,
        protected_paths: system_paths(),
        auto_clean_days: Some(30u32),
        max_trash_size: Some(DEFAULT_MAX_TRASH_SIZE),
        colors: true,
        require_confirmation: true,
        use_fzf: true,
        date_format: "%Y-%m-%d %H:%M:%S"@,
    }
}

/// Whether `path` is a default trash directory: `trash` inside some data
/// directory, or `/tmp/rmz/trash`.
pub open spec fn is_default_trash_path(path: Seq<char>) -> bool {
    path == "/tmp/rmz/trash"@ || exists|dir: Seq<char>| path == #[trigger] join_spec(dir, "trash"@)
}

/// Whether `path` is a default configuration file: `config.toml` inside
/// some configuration directory, or `/tmp/rmz/config.toml`.
pub open spec fn is_default_config_file(path: Seq<char>) -> bool {
    path == "/tmp/rmz/config.toml"@ || exists|dir: Seq<char>|
        path == #[trigger] join_spec(dir, "config.toml"@)
}

/// The directory beside the trash zone with the given name: inside the
/// parent of the trash path, or inside the trash path where it has none.
pub open spec fn sibling_dir(trash_path: Seq<char>, name: Seq<char>) -> Seq<char> {
    match parent_spec(trash_path) {
        Some(dir) => join_spec(dir, name),
        None => join_spec(trash_path, name),
    }
}

/// `path` made absolute: itself where it is absolute, else adjoined to
/// `current_dir`.
pub open spec fn absolute(path: Seq<char>, current_dir: Seq<char>) -> Seq<char> {
    if is_absolute_spec(path) {
        path
    } else {
        join_spec(current_dir, path)
    }
}

/// Whether one of `protected` has `path` at or below it.
pub open spec fn covered(protected: Seq<Seq<char>>, path: Seq<char>) -> bool {
    exists|i: int| 0 <= i < protected.len() && is_under_spec(path, #[trigger] protected[i])
}

/// The position of the first `path` in `paths`, or -1.
pub open spec fn first_index(paths: Seq<Seq<char>>, path: Seq<char>) -> int
    decreases paths.len(),
{
    if paths.len() == 0 {
        -1
    } else if paths[0] == path {
        0
    } else {
        let rest = first_index(paths.drop_first(), path);
        if rest < 0 {
            -1
        } else {
            rest + 1
        }
    }
}

impl Config {
    /// The trash directory for a data directory: `trash` inside it, or
    /// `/tmp/rmz/trash` where there is none.
    pub fn trash_path_in(data_dir: Option<&str>) -> (r: String)
        ensures
            r@ == match data_dir {
                Some(dir) => join_spec(dir@, "trash"@),
                None => "/tmp/rmz/trash"@,
            },
    {
        match data_dir {
            Some(dir) => paths::join(dir, "trash"),
            None => "/tmp/rmz/trash".to_owned(),
        }
    }

    /// The configuration file for a configuration directory: `config.toml`
    /// inside it, or `/tmp/rmz/config.toml` where there is none.
    pub fn config_file_in(config_dir: Option<&str>) -> (r: String)
        ensures
            r@ == match config_dir {
                Some(dir) => join_spec(dir@, "config.toml"@),
                None => "/tmp/rmz/config.toml"@,
            },
    {
        match config_dir {
            Some(dir) => paths::join(dir, "config.toml"),
            None => "/tmp/rmz/config.toml".to_owned(),
        }
    }

    /// The default trash directory of the present user: `trash` inside
    /// the user's data directory for the application, or `/tmp/rmz/trash`
    /// where no such directory is known.
    pub fn default_trash_path() -> (r: String)
        ensures
            is_default_trash_path(r@),
    {
        match project_dirs() {
            Some((data_dir, _)) => {
                let r = Self::trash_path_in(Some(data_dir.as_str()));
                assert(r@ == join_spec(data_dir@, "trash"@));
                r
            },
            None => Self::trash_path_in(None),
        }
    }

    /// The configuration file of the present user: `config.toml` inside
    /// the user's configuration directory for the application, or
    /// `/tmp/rmz/config.toml` where no such directory is known.
    pub fn config_file_path() -> (r: String)
        ensures
            is_default_config_file(r@),
    {
        match project_dirs() {
            Some((_, config_dir)) => {
                let r = Self::config_file_in(Some(config_dir.as_str()));
                assert(r@ == join_spec(config_dir@, "config.toml"@));
                r
            },
            None => Self::config_file_in(None),
        }
    }

    /// The default configuration with the trash zone at `trash_path`.
    pub fn with_trash_path(trash_path: String) -> (r: Config)
        ensures
            r@ == default_with(trash_path@),
    {
        Config {
            trash_path,
            protected_paths: Self::default_protected_paths(),
            auto_clean_days: Some(30),
            max_trash_size: Some(DEFAULT_MAX_TRASH_SIZE),
            colors: true,
            require_confirmation: true,
            use_fzf: true,
            date_format: "%Y-%m-%d %H:%M:%S".to_owned(),
        }
    }

    /// The system directories that are protected from the start.
    pub fn default_protected_paths() -> (r: Vec<String>)
        ensures
            texts(r@) == system_paths(),
    {
        let mut r: Vec<String> = Vec::new();
        r.push("/bin".to_owned());
        r.push("/boot".to_owned());
        r.push("/dev".to_owned());
        r.push("/etc".to_owned());
        r.push("/lib".to_owned());
        r.push("/lib64".to_owned());
        r.push("/proc".to_owned());
        r.push("/root".to_owned());
        r.push("/run".to_owned());
        r.push("/sbin".to_owned());
        r.push("/sys".to_owned());
        r.push("/usr".to_owned());
        r.push("/var".to_owned());
        assert(texts(r@) =~= system_paths());
        r
    }

    /// The metadata directory beside the trash zone.
    pub fn metadata_path(&self) -> (r: String)
        ensures
            r@ == sibling_dir(self@.trash_path, "metadata"@),
    {
        match paths::parent(self.trash_path.as_str()) {
            Some(dir) => paths::join(dir.as_str(), "metadata"),
            None => paths::join(self.trash_path.as_str(), "metadata"),
        }
    }

    /// The logs directory beside the trash zone.
    pub fn logs_path(&self) -> (r: String)
        ensures
            r@ == sibling_dir(self@.trash_path, "logs"@),
    {
        match paths::parent(self.trash_path.as_str()) {
            Some(dir) => paths::join(dir.as_str(), "logs"),
            None => paths::join(self.trash_path.as_str(), "logs"),
        }
    }

    /// Whether `path`, taken relative to `current_dir` unless it is
    /// absolute, lies at or below a protected path.
    pub fn is_protected(&self, path: &str, current_dir: &str) -> (r: bool)
        ensures
            r == covered(self@.protected_paths, absolute(path@, current_dir@)),
    {
        let abs_path = if paths::is_absolute(path) {
            path.to_owned()
        } else {
            paths::join(current_dir, path)
        };
        let mut i: usize = 0;
        while i < self.protected_paths.len()
            invariant
                i <= self.protected_paths.len(),
                abs_path@ == absolute(path@, current_dir@),
                forall|j: int|
                    0 <= j < i ==> !is_under_spec(abs_path@, #[trigger] self@.protected_paths[j]),
            decreases self.protected_paths.len() - i,
        {
            if paths::is_under(abs_path.as_str(), self.protected_paths[i].as_str()) {
                assert(is_under_spec(abs_path@, self@.protected_paths[i as int]));
                return true;
            }
            i += 1;
        }
        false
    }

    /// Adds `path` at the end of the protected paths, unless it is among
    /// them already.
    pub fn add_protected_path(&mut self, path: String)
        ensures
            old(self)@.protected_paths.contains(path@) ==> final(self)@ == old(self)@,
            !old(self)@.protected_paths.contains(path@) ==> final(self)@ == (ConfigView {
                protected_paths: old(self)@.protected_paths.push(path@),
                ..old(self)@
            }),
    {
        if !crate::domain::file_meta::has_text(&self.protected_paths, path.as_str()) {
            let ghost before = texts(self.protected_paths@);
            self.protected_paths.push(path);
            assert(texts(self.protected_paths@) =~= before.push(path@));
        }
    }

    /// Removes the first occurrence of `path` from the protected paths and
    /// tells whether there was one.
    pub fn remove_protected_path(&mut self, path: &str) -> (r: bool)
        ensures
            r == old(self)@.protected_paths.contains(path@),
            r ==> final(self)@ == (ConfigView {
                protected_paths: old(self)@.protected_paths.remove(
                    first_index(old(self)@.protected_paths, path@),
                ),
                ..old(self)@
            }),
            !r ==> final(self)@ == old(self)@,
    {
        let ghost before = texts(self.protected_paths@);
        let mut i: usize = 0;
        while i < self.protected_paths.len()
            invariant
                i <= self.protected_paths.len(),
                before == texts(self.protected_paths@),
                *self == *old(self),
                forall|j: int| 0 <= j < i ==> before[j] != path@,
            decreases self.protected_paths.len() - i,
        {
            if text::same_text(self.protected_paths[i].as_str(), path) {
                proof {
                    lemma_first_index(before, path@, i as int);
                    assert(before[i as int] == path@);
                    assert(old(self)@.protected_paths.contains(path@));
                }
                self.protected_paths.remove(i);
                assert(texts(self.protected_paths@) =~= before.remove(i as int));
                return true;
            }
            i += 1;
        }
        false
    }

    /// The directories that the application needs: the trash zone, the
    /// metadata directory, the logs directory, and the directory of the
    /// configuration file `config_file` where it has one.
    pub fn ensure_directories(&self, config_file: &str) -> (r: Vec<String>)
        ensures
            texts(r@) == match parent_spec(config_file@) {
                Some(dir) => seq![
                    self@.trash_path,
                    sibling_dir(self@.trash_path, "metadata"@),
                    sibling_dir(self@.trash_path, "logs"@),
                    dir,
                ],
                None => seq![
                    self@.trash_path,
                    sibling_dir(self@.trash_path, "metadata"@),
                    sibling_dir(self@.trash_path, "logs"@),
                ],
            },
    {
        let mut r: Vec<String> = Vec::new();
        r.push(self.trash_path.clone());
        r.push(self.metadata_path());
        r.push(self.logs_path());
        match paths::parent(config_file) {
            Some(dir) => {
                r.push(dir);
                assert(texts(r@) =~= seq![
                    self@.trash_path,
                    sibling_dir(self@.trash_path, "metadata"@),
                    sibling_dir(self@.trash_path, "logs"@),
                    parent_spec(config_file@)->0,
                ]);
            },
            None => {
                assert(texts(r@) =~= seq![
                    self@.trash_path,
                    sibling_dir(self@.trash_path, "metadata"@),
                    sibling_dir(self@.trash_path, "logs"@),
                ]);
            },
        }
        r
    }
}

proof fn lemma_first_index(paths: Seq<Seq<char>>, path: Seq<char>, i: int)
    requires
        0 <= i < paths.len(),
        paths[i] == path,
        forall|j: int| 0 <= j < i ==> paths[j] != path,
    ensures
        first_index(paths, path) == i,
    decreases i,
{
    if i > 0 {
        let rest = paths.drop_first();
        assert(rest[i - 1] == paths[i]);
        assert forall|j: int| 0 <= j < i - 1 implies rest[j] != path by {
            assert(rest[j] == paths[j + 1]);
        }
        lemma_first_index(rest, path, i - 1);
    }
}

impl Default for Config {
    /// The default configuration of the present user.
    fn default() -> (r: Config)
        ensures
            r@ == default_with(r@.trash_path),
            is_default_trash_path(r@.trash_path),
    {
        Config::with_trash_path(Config::default_trash_path())
    }
}

} // verus!
