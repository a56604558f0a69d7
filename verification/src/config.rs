//! The settings: their defaults, how loaded values are brought within bounds, how
//! an older history raises the history limit, and where the database lives.
use vstd::prelude::*;

use crate::db::{
    MAX_HISTORY_LIMIT, MIN_HISTORY_LIMIT, MIN_IMAGE_BUDGET, clamp_history, clamp_image_budget,
};
use crate::text::{chars_of, decimal, extend_chars, format_u64, string_of};

verus! {

/// The interface language.
#[derive(Clone, Copy, Debug, PartialEq, Eq, Structural)]
pub enum Language {
    ZhCn,
    En,
}

impl Default for Language {
    fn default() -> (l: Language)
        ensures
            l == Language::ZhCn,
    {
        Language::ZhCn
    }
}

/// The settings of the application.
#[derive(Clone, Debug)]
pub struct AppConfig {
    pub max_history: usize,
    pub max_image_bytes: u64,
    pub poll_interval_ms: u64,
    pub hide_after_copy: bool,
    pub hide_to_tray_on_close: bool,
    pub dark_mode: bool,
    pub start_on_boot: bool,
    pub use_win_v_hotkey: bool,
    pub language: Language,
}

/// The default image budget: 500 MiB.
pub const DEFAULT_IMAGE_BUDGET: u64 = 524_288_000;

/// The default history length.
pub const DEFAULT_HISTORY: usize = 200;

/// The shortest clipboard polling interval, in milliseconds.
pub const MIN_POLL_INTERVAL_MS: u64 = 100;

/// The schema version from which a database no longer holds an old history.
pub const CURRENT_SCHEMA_VERSION: i64 = 3;

/// The settings of a new installation.
pub open spec fn is_default_config(c: AppConfig) -> bool {
    &&& c.max_history == DEFAULT_HISTORY
    &&& c.max_image_bytes == DEFAULT_IMAGE_BUDGET
    &&& c.poll_interval_ms == 500
    &&& c.hide_after_copy
    &&& c.hide_to_tray_on_close
    &&& c.dark_mode
    &&& !c.start_on_boot
    &&& !c.use_win_v_hotkey
    &&& c.language == Language::ZhCn
}

impl Default for AppConfig {
    fn default() -> (c: AppConfig)
        ensures
            is_default_config(c),
    {
        AppConfig {
            max_history: DEFAULT_HISTORY,
            max_image_bytes: DEFAULT_IMAGE_BUDGET,
            poll_interval_ms: 500,
            hide_after_copy: true,
            hide_to_tray_on_close: true,
            dark_mode: true,
            start_on_boot: false,
            use_win_v_hotkey: false,
            language: Language::ZhCn,
        }
    }
}

/// Two settings that differ at most in their two limits.
pub open spec fn same_except_limits(a: AppConfig, b: AppConfig) -> bool {
    &&& a.poll_interval_ms == b.poll_interval_ms
    &&& a.hide_after_copy == b.hide_after_copy
    &&& a.hide_to_tray_on_close == b.hide_to_tray_on_close
    &&& a.dark_mode == b.dark_mode
    &&& a.start_on_boot == b.start_on_boot
    &&& a.use_win_v_hotkey == b.use_win_v_hotkey
    &&& a.language == b.language
}

/// The message given when an old history holds more entries than can be kept.
pub open spec fn legacy_overflow_message(count: nat) -> Seq<char> {
    "旧库有 "@ + decimal(count) + " 条记录，超过安全迁移上限 "@ + decimal(MAX_HISTORY_LIMIT as nat)
        + "；未修改历史库"@
}

/// What an old history's entry count does to the history limit: a count above the
/// limit raises it to the count, unless the count exceeds the largest limit, which is
/// refused; otherwise nothing changes.
pub open spec fn legacy_limit(max_history: usize, legacy: Option<usize>) -> Result<Option<usize>, Seq<char>> {
    match legacy {
        Some(count) => if count > max_history {
            if count > MAX_HISTORY_LIMIT {
                Err(legacy_overflow_message(count as nat))
            } else {
                Ok(Some(count))
            }
        } else {
            Ok(None)
        },
        None => Ok(None),
    }
}

/// The platform's path separator (`std::path::MAIN_SEPARATOR`): `\` on Windows and
/// `/` elsewhere. Which of the two it is depends on the platform, so nothing more is
/// stated.
#[verifier::external_body]
fn main_separator() -> (c: char)
    ensures
        c == '/' || c == '\\',
{
    std::path::MAIN_SEPARATOR
}

/// Whether a character separates path components on the platform whose main
/// separator is `sep`: `/` everywhere, and `\` on Windows.
pub open spec fn is_separator(c: char, sep: char) -> bool {
    c == '/' || c == sep
}

/// Whether a directory is a bare Windows drive (`C:`), to which a relative name is
/// joined without a separator.
pub open spec fn bare_drive(dir: Seq<char>, sep: char) -> bool {
    sep == '\\' && dir.len() == 2 && dir[1] == ':' && (('a' <= dir[0] && dir[0] <= 'z') || ('A'
        <= dir[0] && dir[0] <= 'Z'))
}

/// A relative file name joined to a directory as `PathBuf::push` joins it: a
/// separator goes between them unless the directory is empty, already ends in a
/// separator, or is a bare drive.
pub open spec fn path_join(dir: Seq<char>, sep: char, name: Seq<char>) -> Seq<char> {
    if dir.len() == 0 || is_separator(dir.last(), sep) || bare_drive(dir, sep) {
        dir + name
    } else {
        dir + seq![sep] + name
    }
}

/// A relative file name joined to a directory, with the platform's separator.
pub fn join_path(dir: &str, name: &str) -> (res: String)
    ensures
        exists|sep: char| (sep == '/' || sep == '\\') && res@ == path_join(dir@, sep, name@),
{
    let sep = main_separator();
    let d = chars_of(dir);
    let name_chars = chars_of(name);
    let n = d.len();
    let joins_directly = if n == 0 {
        true
    } else {
        let last = d[n - 1];
        let drive = sep == '\\' && n == 2 && d[1] == ':' && (('a' <= d[0] && d[0] <= 'z') || ('A'
            <= d[0] && d[0] <= 'Z'));
        last == '/' || last == sep || drive
    };
    let mut out = d;
    if !joins_directly {
        out.push(sep);
    }
    extend_chars(&mut out, &name_chars);
    assert(out@ =~= path_join(dir@, sep, name@));
    string_of(&out)
}

impl AppConfig {
    /// Brings loaded limits within bounds: the history length into `20..=100000`,
    /// the image budget up to at least one mebibyte.
    pub fn normalize(&mut self)
        ensures
            final(self).max_history == clamp_history(old(self).max_history),
            final(self).max_image_bytes == clamp_image_budget(old(self).max_image_bytes),
            same_except_limits(*final(self), *old(self)),
    {
        if self.max_history < MIN_HISTORY_LIMIT {
            self.max_history = MIN_HISTORY_LIMIT;
        } else if self.max_history > MAX_HISTORY_LIMIT {
            self.max_history = MAX_HISTORY_LIMIT;
        }
        if self.max_image_bytes < MIN_IMAGE_BUDGET {
            self.max_image_bytes = MIN_IMAGE_BUDGET;
        }
    }

    /// Raises the history limit to keep an old history's entries (`legacy` is their
    /// count, when an old history exists). Returns whether the limit changed, so that
    /// the settings are saved; a count above the largest limit is refused and nothing
    /// changes.
    pub fn adopt_legacy_count(&mut self, legacy: Option<usize>) -> (res: Result<bool, String>)
        ensures
            match legacy_limit(old(self).max_history, legacy) {
                Ok(Some(n)) => res == Ok::<bool, String>(true) && final(self).max_history == n,
                Ok(None) => res == Ok::<bool, String>(false) && final(self).max_history
                    == old(self).max_history,
                Err(m) => res matches Err(e) && e@ == m && final(self).max_history
                    == old(self).max_history,
            },
            final(self).max_image_bytes == old(self).max_image_bytes,
            same_except_limits(*final(self), *old(self)),
    {
        let count = match legacy {
            Some(c) => c,
            None => {
                return Ok(false);
            },
        };
        if count <= self.max_history {
            return Ok(false);
        }
        if count > MAX_HISTORY_LIMIT {
            let mut msg = chars_of("旧库有 ");
            let digits = format_u64(count as u64);
            extend_chars(&mut msg, &digits);
            let middle = chars_of(" 条记录，超过安全迁移上限 ");
            extend_chars(&mut msg, &middle);
            let limit = format_u64(MAX_HISTORY_LIMIT as u64);
            extend_chars(&mut msg, &limit);
            let tail = chars_of("；未修改历史库");
            extend_chars(&mut msg, &tail);
            return Err(string_of(&msg));
        }
        self.max_history = count;
        Ok(true)
    }

    /// The path of the history database in the data directory `data_dir`.
    pub fn database_path(&self, data_dir: &str) -> (res: String)
        ensures
            exists|sep: char|
                (sep == '/' || sep == '\\') && res@ == path_join(data_dir@, sep, "clipboard.sqlite3"@),
    {
        join_path(data_dir, "clipboard.sqlite3")
    }

    /// The path of the settings file in the configuration directory `config_dir`.
    pub fn config_path(config_dir: &str) -> (res: String)
        ensures
            exists|sep: char| (sep == '/' || sep == '\\') && res@ == path_join(config_dir@, sep, "settings.json"@),
    {
        join_path(config_dir, "settings.json")
    }

    /// The clipboard polling interval in milliseconds: the configured one, but never
    /// below 100.
    pub fn poll_interval(&self) -> (ms: u64)
        ensures
            ms == if self.poll_interval_ms < MIN_POLL_INTERVAL_MS {
                MIN_POLL_INTERVAL_MS
            } else {
                self.poll_interval_ms
            },
    {
        if self.poll_interval_ms < MIN_POLL_INTERVAL_MS {
            MIN_POLL_INTERVAL_MS
        } else {
            self.poll_interval_ms
        }
    }
}

/// Whether a database of the given schema version may still hold an old history
/// whose entry count matters.
pub fn holds_legacy_history(schema_version: i64) -> (res: bool)
    ensures
        res == (schema_version < CURRENT_SCHEMA_VERSION),
{
    schema_version < CURRENT_SCHEMA_VERSION
}

/// An old history's entry count as a length, when it is one.
pub fn legacy_count(count: i64) -> (res: Option<usize>)
    ensures
        res == (if 0 <= count <= usize::MAX {
            Some(count as usize)
        } else {
            None::<usize>
        }),
{
    if count < 0 {
        return None;
    }
    let c = count as u64;
    if c as u128 > usize::MAX as u128 {
        return None;
    }
    Some(c as usize)
}

/// Settings read back from disk, made ready for use: their limits brought within
/// bounds, then the history limit raised for an old history of `legacy` entries.
/// Also returns whether the settings must be saved again.
pub fn settle_loaded(config: AppConfig, legacy: Option<usize>) -> (res: Result<(AppConfig, bool), String>)
    ensures
        match legacy_limit(clamp_history(config.max_history), legacy) {
            Ok(raised) => res matches Ok((c, save)) && save == (raised is Some) && c.max_history == (
            match raised {
                Some(n) => n,
                None => clamp_history(config.max_history),
            }) && c.max_image_bytes == clamp_image_budget(config.max_image_bytes)
                && same_except_limits(c, config),
            Err(m) => res matches Err(e) && e@ == m,
        },
{
    let mut c = config;
    c.normalize();
    match c.adopt_legacy_count(legacy) {
        Ok(save) => Ok((c, save)),
        Err(e) => Err(e),
    }
}

/// Bringing limits within bounds twice changes nothing more.
pub proof fn law_normalize_is_idempotent(max_history: usize, max_image_bytes: u64)
    ensures
        clamp_history(clamp_history(max_history)) == clamp_history(max_history),
        clamp_image_budget(clamp_image_budget(max_image_bytes)) == clamp_image_budget(max_image_bytes),
{
}

/// An upgrade keeps an old history: after a count is adopted, the history limit is
/// at least that count and still within bounds; a limit already above the count is
/// left alone.
pub proof fn law_legacy_count_is_kept(max_history: usize, count: usize)
    requires
        MIN_HISTORY_LIMIT <= max_history <= MAX_HISTORY_LIMIT,
        count <= MAX_HISTORY_LIMIT,
    ensures
        legacy_limit(max_history, Some(count)) is Ok,
        ({
            let n = match legacy_limit(max_history, Some(count)) {
                Ok(Some(n)) => n,
                _ => max_history,
            };
            &&& n >= count
            &&& MIN_HISTORY_LIMIT <= n <= MAX_HISTORY_LIMIT
            &&& count <= max_history ==> n == max_history
        }),
{
}

} // verus!
