//! Reading and changing the configuration.

use crate::cli::ConfigAction;
use crate::domain::config::{Config, ConfigView};
use crate::errors::RmzError;
use crate::paths::{self, is_absolute_spec};
use crate::text::{self, all_digits, chars_of, decimal_value, lowercase, uppercase};
use crate::utils::size_format::size_text;
use crate::utils::size_parser::{is_suffixed_size, parse_upper_size};
use crate::utils::walk::WalkEntry;
use vstd::prelude::*;

verus! {

/// What the configuration command is to do.
#[derive(Debug, PartialEq, Eq)]
pub enum ConfigRequest {
    /// Show the configuration.
    Show,
    /// Store the configuration given, which has one value changed.
    Store { config: Config },
    /// Remove the configuration file and store the default configuration.
    Reset { config: Config },
}

/// The truth value that a lowercase word stands for.
pub open spec fn keyword_value(lowered: Seq<char>) -> Option<bool> {
    if lowered == "true"@ || lowered == "yes"@ || lowered == "on"@ || lowered == "1"@ || lowered
        == "enabled"@ {
        Some(true)
    } else if lowered == "false"@ || lowered == "no"@ || lowered == "off"@ || lowered == "0"@
        || lowered == "disabled"@ {
        Some(false)
    } else {
        None
    }
}

/// The truth value that a lowercase word stands for: `true`, `yes`, `on`,
/// `1` and `enabled` for true; `false`, `no`, `off`, `0` and `disabled`
/// for false.
pub fn bool_keyword(lowered: &str) -> (r: Option<bool>)
    ensures
        r == keyword_value(lowered@),
{
    if text::same_text(lowered, "true") || text::same_text(lowered, "yes") || text::same_text(
        lowered,
        "on",
    ) || text::same_text(lowered, "1") || text::same_text(lowered, "enabled") {
        Some(true)
    } else if text::same_text(lowered, "false") || text::same_text(lowered, "no")
        || text::same_text(lowered, "off") || text::same_text(lowered, "0") || text::same_text(
        lowered,
        "disabled",
    ) {
        Some(false)
    } else {
        None
    }
}

/// Whether `r` is what the word `value` with the lowercase form `lowered`
/// stands for: its truth value, or `InvalidBoolean` with the word.
pub open spec fn is_bool_of(r: Result<bool, RmzError>, lowered: Seq<char>, value: Seq<char>) -> bool {
    match keyword_value(lowered) {
        Some(b) => r == Ok::<bool, RmzError>(b),
        None => r matches Err(RmzError::InvalidBoolean { value: word }) && word@ == value,
    }
}

/// Reads a truth value, whatever the case of the word.
pub fn parse_bool(value: &str) -> (r: Result<bool, RmzError>)
    ensures
        is_bool_of(r, lowercase(value@), value@),
{
    let lowered = text::lowercase_of(value);
    match bool_keyword(lowered.as_str()) {
        Some(b) => Ok(b),
        None => Err(RmzError::InvalidBoolean { value: value.to_owned() }),
    }
}

/// Reads a size such as `100MB` or `1GB`, whatever its case.
pub fn parse_size(size_str: &str) -> (r: Result<u64, RmzError>)
    ensures
        is_suffixed_size(r, uppercase(size_str@)),
{
    crate::utils::size_parser::parse_size_suffixed(size_str)
}

/// Formats a size in bytes for reading.
pub fn format_size(bytes: u64) -> (r: String)
    ensures
        r@ == size_text(bytes),
{
    crate::utils::size_format::format_size(bytes)
}

/// The digits of a number with an optional plus sign before them.
pub open spec fn unsigned_digits(s: Seq<char>) -> Seq<char> {
    if s.len() > 0 && s[0] == '+' {
        s.drop_first()
    } else {
        s
    }
}

/// The number below 2³² that `s` denotes: digits, with an optional plus
/// sign before them.
pub open spec fn u32_value(s: Seq<char>) -> Option<u32> {
    let d = unsigned_digits(s);
    if d.len() > 0 && all_digits(d) && decimal_value(d) <= u32::MAX {
        Some(decimal_value(d) as u32)
    } else {
        None
    }
}

/// Reads a number below 2³².
pub fn parse_u32(s: &str) -> (r: Option<u32>)
    ensures
        r == u32_value(s@),
{
    let v = chars_of(s);
    let from: usize = if v.len() > 0 && v[0] == '+' {
        1
    } else {
        0
    };
    let digits = text::text_of(&v, from, v.len());
    assert(digits@ =~= unsigned_digits(s@));
    if v.len() == from {
        return None;
    }
    match text::digits_value(digits.as_str(), u32::MAX as u128) {
        Some(n) => Some(n as u32),
        None => None,
    }
}

/// Whether `r` is the configuration with the value of `key` set, given
/// the value as written, in lowercase and in uppercase.
///
/// `trash_path` takes an absolute path. `auto_clean_days` takes a number,
/// or `disabled` or `none`; `max_trash_size` a size, or `unlimited` or
/// `none`. `colors`, `require_confirmation` and `use_fzf` take a truth
/// value, `date_format` any text. Any other key is refused, and so is a
/// value that the key does not take; the error names what was refused.
pub open spec fn is_setting_of(
    r: Result<Config, RmzError>,
    config: ConfigView,
    key: Seq<char>,
    value: Seq<char>,
    lowered: Seq<char>,
    upper: Seq<char>,
) -> bool {
    if key == "trash_path"@ {
        if is_absolute_spec(value) {
            r matches Ok(c) && c@ == (ConfigView { trash_path: value, ..config })
        } else {
            r matches Err(RmzError::Failed { message }) && message@
                == "trash_path must be an absolute path"@
        }
    } else if key == "auto_clean_days"@ {
        if lowered == "disabled"@ || lowered == "none"@ {
            r matches Ok(c) && c@ == (ConfigView { auto_clean_days: None, ..config })
        } else {
            match u32_value(value) {
                Some(days) => r matches Ok(c) && c@ == (ConfigView {
                    auto_clean_days: Some(days),
                    ..config
                }),
                None => r matches Err(RmzError::Failed { message }) && message@
                    == "auto_clean_days must be a number or 'disabled'"@,
            }
        }
    } else if key == "max_trash_size"@ {
        if lowered == "unlimited"@ || lowered == "none"@ {
            r matches Ok(c) && c@ == (ConfigView { max_trash_size: None, ..config })
        } else {
            exists|size: Result<u64, RmzError>| #[trigger]
                is_suffixed_size(size, upper) && match size {
                    Ok(n) => r matches Ok(c) && c@ == (ConfigView {
                        max_trash_size: Some(n),
                        ..config
                    }),
                    Err(e) => r == Err::<Config, RmzError>(e),
                }
        }
    } else if key == "colors"@ || key == "require_confirmation"@ || key == "use_fzf"@ {
        match keyword_value(lowered) {
            Some(b) => r matches Ok(c) && c@ == if key == "colors"@ {
                ConfigView { colors: b, ..config }
            } else if key == "require_confirmation"@ {
                ConfigView { require_confirmation: b, ..config }
            } else {
                ConfigView { use_fzf: b, ..config }
            },
            None => r matches Err(RmzError::InvalidBoolean { value: word }) && word@ == value,
        }
    } else if key == "date_format"@ {
        r matches Ok(c) && c@ == (ConfigView { date_format: value, ..config })
    } else {
        r matches Err(RmzError::Failed { message }) && message@ == "Unknown configuration key: "@
            + key
    }
}

/// The configuration with the value of `key` set, given the value as
/// written, in lowercase and in uppercase.
pub fn apply_setting(config: Config, key: &str, value: &str, lowered: &str, upper: &str) -> (r:
    Result<Config, RmzError>)
    ensures
        is_setting_of(r, config@, key@, value@, lowered@, upper@),
{
    let mut config = config;
    if text::same_text(key, "trash_path") {
        if !paths::is_absolute(value) {
            return Err(
                RmzError::Failed { message: "trash_path must be an absolute path".to_owned() },
            );
        }
        config.trash_path = value.to_owned();
        Ok(config)
    } else if text::same_text(key, "auto_clean_days") {
        if text::same_text(lowered, "disabled") || text::same_text(lowered, "none") {
            config.auto_clean_days = None;
            Ok(config)
        } else {
            match parse_u32(value) {
                Some(days) => {
                    config.auto_clean_days = Some(days);
                    Ok(config)
                },
                None => Err(
                    RmzError::Failed {
                        message: "auto_clean_days must be a number or 'disabled'".to_owned(),
                    },
                ),
            }
        }
    } else if text::same_text(key, "max_trash_size") {
        if text::same_text(lowered, "unlimited") || text::same_text(lowered, "none") {
            config.max_trash_size = None;
            Ok(config)
        } else {
            let size = parse_upper_size(upper);
            match size {
                Ok(n) => {
                    config.max_trash_size = Some(n);
                    assert(is_suffixed_size(Ok::<u64, RmzError>(n), upper@));
                    Ok(config)
                },
                Err(e) => {
                    assert(is_suffixed_size(Err::<u64, RmzError>(e), upper@));
                    Err(e)
                },
            }
        }
    } else if text::same_text(key, "colors") {
        match bool_keyword(lowered) {
            Some(b) => {
                config.colors = b;
                Ok(config)
            },
            None => Err(RmzError::InvalidBoolean { value: value.to_owned() }),
        }
    } else if text::same_text(key, "require_confirmation") {
        match bool_keyword(lowered) {
            Some(b) => {
                config.require_confirmation = b;
                Ok(config)
            },
            None => Err(RmzError::InvalidBoolean { value: value.to_owned() }),
        }
    } else if text::same_text(key, "use_fzf") {
        match bool_keyword(lowered) {
            Some(b) => {
                config.use_fzf = b;
                Ok(config)
            },
            None => Err(RmzError::InvalidBoolean { value: value.to_owned() }),
        }
    } else if text::same_text(key, "date_format") {
        config.date_format = value.to_owned();
        Ok(config)
    } else {
        Err(RmzError::Failed { message: text::concat("Unknown configuration key: ", key) })
    }
}

/// The configuration with the value of `key` set to what `value` says.
pub fn set_config_value(config: Config, key: &str, value: &str) -> (r: Result<Config, RmzError>)
    ensures
        is_setting_of(r, config@, key@, value@, lowercase(value@), uppercase(value@)),
{
    let lowered = text::lowercase_of(value);
    let upper = text::uppercase_of(value);
    apply_setting(config, key, value, lowered.as_str(), upper.as_str())
}

/// Decides what the configuration command does to the configuration in
/// force: nothing for a show, one value set for a change, the default
/// configuration for a reset.
pub fn execute(action: ConfigAction, config: Config) -> (r: Result<ConfigRequest, RmzError>)
    ensures
        match action {
            ConfigAction::Show => r == Ok::<ConfigRequest, RmzError>(ConfigRequest::Show),
            ConfigAction::SetValue { key, value } => exists|changed: Result<Config, RmzError>| #[trigger]
                is_setting_of(
                    changed,
                    config@,
                    key@,
                    value@,
                    lowercase(value@),
                    uppercase(value@),
                ) && match changed {
                    Ok(c) => r == Ok::<ConfigRequest, RmzError>(
                        ConfigRequest::Store { config: c },
                    ),
                    Err(e) => r == Err::<ConfigRequest, RmzError>(e),
                },
            ConfigAction::Reset => r matches Ok(ConfigRequest::Reset { config: c }) && c@
                == crate::domain::config::default_with(c@.trash_path)
                && crate::domain::config::is_default_trash_path(c@.trash_path),
        },
{
    match action {
        ConfigAction::Show => Ok(ConfigRequest::Show),
        ConfigAction::SetValue { key, value } => {
            let changed = set_config_value(config, key.as_str(), value.as_str());
            match changed {
                Ok(c) => {
                    assert(is_setting_of(
                        Ok::<Config, RmzError>(c),
                        config@,
                        key@,
                        value@,
                        lowercase(value@),
                        uppercase(value@),
                    ));
                    Ok(ConfigRequest::Store { config: c })
                },
                Err(e) => {
                    assert(is_setting_of(
                        Err::<Config, RmzError>(e),
                        config@,
                        key@,
                        value@,
                        lowercase(value@),
                        uppercase(value@),
                    ));
                    Err(e)
                },
            }
        },
        ConfigAction::Reset => Ok(ConfigRequest::Reset { config: Config::default() }),
    }
}

/// The total size of the files that a walk through a directory found.
pub fn calculate_directory_size(entries: &Vec<WalkEntry>) -> (total: u64)
    ensures
        total == if crate::utils::walk::files_size(entries@, entries.len() as int) <= u64::MAX {
            crate::utils::walk::files_size(entries@, entries.len() as int) as u64
        } else {
            u64::MAX
        },
{
    crate::utils::walk::calculate_directory_size(entries)
}

/// How many files a walk through a directory found.
pub fn count_files_in_directory(entries: &Vec<WalkEntry>) -> (count: usize)
    ensures
        count == crate::utils::walk::files_count(entries@, entries.len() as int),
{
    crate::utils::walk::count_files_in_directory(entries)
}

} // verus!
