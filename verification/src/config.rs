//! The settings of the service, their defaults, and how a configuration
//! file overrides them.
use vstd::prelude::*;
use vstd::string::*;
use crate::error::AppError;
use crate::expiry::{digit_count, humantime_seconds, parse_duration_secs, MAX_DURATION_DIGITS};

verus! {

/// Address the server listens on when the configuration names none.
pub const LISTEN_ADDR: &'static str = "127.0.0.1:3000";

/// Public base of every link handed out when the configuration names none.
pub const BASE_URL: &'static str = "http://127.0.0.1:3000";

/// Directory of the stored uploads when the configuration names none.
pub const UPLOAD_FILE_DIR: &'static str = "./uploads";

/// Database file when the configuration names none.
pub const DATABASE_FILE: &'static str = "webpaste.db";

/// How many tails are sampled before an upload is refused as drained.
pub const GEN_TAIL_MAX_ATTAMPS: usize = 16;

/// Length of a tail when the upload asks for none.
pub const DEFAULT_TAIL_LEN: usize = 4;

/// Shortest retention, in seconds: thirty days.
pub const MIN_EXPIRE_AGE: i64 = 30 * 24 * 60 * 60;

/// Longest retention, in seconds: one year.
pub const MAX_EXPIRE_AGE: i64 = 365 * 24 * 60 * 60;

/// Largest accepted upload, in bytes: 512 MiB.
pub const MAX_FILE_SIZE: usize = 512 * 1024 * 1024;

/// Seconds between two sweeps of expired links.
pub const CLEANUP_URLS_DURATION: u64 = 30;

/// Seconds between two sweeps of unreferenced files.
pub const CLEANUP_FILES_DURATION: u64 = 60;

/// The settings of a running service.
#[derive(Debug)]
pub struct Config {
    pub listen_addr: String,
    pub base_url: String,
    pub upload_file_dir: String,
    pub database_file: String,
    pub gen_tail_max_attamps: usize,
    pub default_tail_len: usize,
    pub min_expire_duration: i64,
    pub max_expire_duration: i64,
    pub max_file_size: usize,
    pub cleanup_urls_duration: u64,
    pub cleanup_files_duration: u64,
}

impl Config {
    /// The settings a service runs on when no file overrides them.
    pub open spec fn defaults(self) -> bool {
        &&& self.listen_addr@ == LISTEN_ADDR@
        &&& self.base_url@ == BASE_URL@
        &&& self.upload_file_dir@ == UPLOAD_FILE_DIR@
        &&& self.database_file@ == DATABASE_FILE@
        &&& self.gen_tail_max_attamps == GEN_TAIL_MAX_ATTAMPS
        &&& self.default_tail_len == DEFAULT_TAIL_LEN
        &&& self.min_expire_duration == MIN_EXPIRE_AGE
        &&& self.max_expire_duration == MAX_EXPIRE_AGE
        &&& self.max_file_size == MAX_FILE_SIZE
        &&& self.cleanup_urls_duration == CLEANUP_URLS_DURATION
        &&& self.cleanup_files_duration == CLEANUP_FILES_DURATION
    }

    /// Settings the retention curve is defined on: the bounds are ordered
    /// and not negative, and the size ceiling is positive.
    pub open spec fn valid(self) -> bool {
        &&& 0 <= self.min_expire_duration <= self.max_expire_duration
        &&& 0 < self.max_file_size
    }

    /// Tells whether the settings are [`valid`](Config::valid).
    pub fn check(&self) -> (ok: bool)
        ensures
            ok == self.valid(),
    {
        0 <= self.min_expire_duration && self.min_expire_duration <= self.max_expire_duration
            && 0 < self.max_file_size
    }
}

impl Clone for Config {
    fn clone(&self) -> (c: Self)
        ensures
            c == *self,
    {
        Config {
            listen_addr: self.listen_addr.clone(),
            base_url: self.base_url.clone(),
            upload_file_dir: self.upload_file_dir.clone(),
            database_file: self.database_file.clone(),
            gen_tail_max_attamps: self.gen_tail_max_attamps,
            default_tail_len: self.default_tail_len,
            min_expire_duration: self.min_expire_duration,
            max_expire_duration: self.max_expire_duration,
            max_file_size: self.max_file_size,
            cleanup_urls_duration: self.cleanup_urls_duration,
            cleanup_files_duration: self.cleanup_files_duration,
        }
    }
}

impl Default for Config {
    fn default() -> (c: Self)
        ensures
            c.defaults(),
    {
        Self {
            listen_addr: String::from_str(LISTEN_ADDR),
            base_url: String::from_str(BASE_URL),
            upload_file_dir: String::from_str(UPLOAD_FILE_DIR),
            database_file: String::from_str(DATABASE_FILE),
            gen_tail_max_attamps: GEN_TAIL_MAX_ATTAMPS,
            default_tail_len: DEFAULT_TAIL_LEN,
            min_expire_duration: MIN_EXPIRE_AGE,
            max_expire_duration: MAX_EXPIRE_AGE,
            max_file_size: MAX_FILE_SIZE,
            cleanup_urls_duration: CLEANUP_URLS_DURATION,
            cleanup_files_duration: CLEANUP_FILES_DURATION,
        }
    }
}

/// The settings as a configuration file gives them: each one may be
/// missing, and durations are still in the words of the file, such as
/// `30days`.
#[derive(Debug)]
pub struct ConfigFile {
    pub listen_addr: Option<String>,
    pub base_url: Option<String>,
    pub upload_file_dir: Option<String>,
    pub database_file: Option<String>,
    pub gen_tail_max_attamps: Option<i64>,
    pub default_tail_len: Option<i64>,
    pub min_expire_duration: Option<String>,
    pub max_expire_duration: Option<String>,
    pub max_file_size: Option<i64>,
    pub cleanup_urls_duration: Option<String>,
    pub cleanup_files_duration: Option<String>,
}

/// The seconds that a duration of the configuration file stands for;
/// `None` where the words are no duration.
pub open spec fn duration_of(text: Seq<char>) -> Option<i64> {
    if digit_count(text) > MAX_DURATION_DIGITS {
        None
    } else {
        match humantime_seconds(text) {
            Some(seconds) => Some(seconds as i64),
            None => None,
        }
    }
}

/// A duration of the configuration file, where the file gives one, can be
/// read.
pub open spec fn readable(field: Option<String>) -> bool {
    field matches Some(text) ==> duration_of(text@) is Some
}

/// The seconds of a duration of the configuration file, or `default` where
/// the file gives none.
pub open spec fn seconds_or(field: Option<String>, default: i64) -> i64 {
    match field {
        Some(text) => duration_of(text@)->Some_0,
        None => default,
    }
}

/// A text of the configuration file, or `default` where the file gives
/// none.
pub open spec fn text_or(field: Option<String>, default: Seq<char>) -> Seq<char> {
    match field {
        Some(text) => text@,
        None => default,
    }
}

impl ConfigFile {
    /// Every duration of the file can be read.
    pub open spec fn readable(self) -> bool {
        &&& readable(self.min_expire_duration)
        &&& readable(self.max_expire_duration)
        &&& readable(self.cleanup_urls_duration)
        &&& readable(self.cleanup_files_duration)
    }

    /// `config` holds what the file gives and the defaults for the rest.
    /// Counts and sizes are taken into the machine's word as a cast does.
    pub open spec fn merges_into(self, config: Config) -> bool {
        &&& config.listen_addr@ == text_or(self.listen_addr, LISTEN_ADDR@)
        &&& config.base_url@ == text_or(self.base_url, BASE_URL@)
        &&& config.upload_file_dir@ == text_or(self.upload_file_dir, UPLOAD_FILE_DIR@)
        &&& config.database_file@ == text_or(self.database_file, DATABASE_FILE@)
        &&& config.gen_tail_max_attamps == match self.gen_tail_max_attamps {
            Some(v) => v as usize,
            None => GEN_TAIL_MAX_ATTAMPS,
        }
        &&& config.default_tail_len == match self.default_tail_len {
            Some(v) => v as usize,
            None => DEFAULT_TAIL_LEN,
        }
        &&& config.min_expire_duration == seconds_or(self.min_expire_duration, MIN_EXPIRE_AGE)
        &&& config.max_expire_duration == seconds_or(self.max_expire_duration, MAX_EXPIRE_AGE)
        &&& config.max_file_size == match self.max_file_size {
            Some(v) => v as usize,
            None => MAX_FILE_SIZE,
        }
        &&& config.cleanup_urls_duration == seconds_or(
            self.cleanup_urls_duration,
            CLEANUP_URLS_DURATION as i64,
        ) as u64
        &&& config.cleanup_files_duration == seconds_or(
            self.cleanup_files_duration,
            CLEANUP_FILES_DURATION as i64,
        ) as u64
    }
}

/// Reads a duration of the configuration file, where the file gives one.
pub fn deserialize_humantime_duration(field: &Option<String>) -> (r: Result<Option<i64>, AppError>)
    ensures
        r is Ok <==> readable(*field),
        r matches Ok(seconds) ==> match *field {
            Some(text) => seconds == duration_of(text@),
            None => seconds is None,
        },
        r matches Err(e) ==> e is ConfigParseError,
{
    match field {
        Some(text) => match parse_duration_secs(text.as_str()) {
            Ok(seconds) => Ok(Some(seconds as i64)),
            Err(reason) => Err(AppError::ConfigParseError(reason)),
        },
        None => Ok(None),
    }
}

/// A text of the configuration file, or `default` where the file gives
/// none.
fn string_or(field: Option<String>, default: &str) -> (r: String)
    ensures
        r@ == text_or(field, default@),
{
    match field {
        Some(text) => text,
        None => String::from_str(default),
    }
}

/// The seconds that a duration field was read as, or `default`.
fn i64_or(field: Option<i64>, default: i64) -> (r: i64)
    ensures
        r == match field {
            Some(v) => v,
            None => default,
        },
{
    match field {
        Some(v) => v,
        None => default,
    }
}

/// A count or size of the configuration file taken into the machine's
/// word, or `default` where the file gives none.
fn usize_or(field: Option<i64>, default: usize) -> (r: usize)
    ensures
        r == match field {
            Some(v) => v as usize,
            None => default,
        },
{
    match field {
        Some(v) => v as usize,
        None => default,
    }
}

/// The settings that a configuration file stands for: what the file gives,
/// and the defaults for the rest. A duration that cannot be read is an
/// error.
pub fn read_config(file: ConfigFile) -> (r: Result<Config, AppError>)
    ensures
        r is Ok <==> file.readable(),
        r matches Ok(config) ==> file.merges_into(config),
        r matches Err(e) ==> e is ConfigParseError,
{
    let min_expire = match deserialize_humantime_duration(&file.min_expire_duration) {
        Ok(v) => v,
        Err(e) => {
            return Err(e);
        },
    };
    let max_expire = match deserialize_humantime_duration(&file.max_expire_duration) {
        Ok(v) => v,
        Err(e) => {
            return Err(e);
        },
    };
    let cleanup_urls = match deserialize_humantime_duration(&file.cleanup_urls_duration) {
        Ok(v) => v,
        Err(e) => {
            return Err(e);
        },
    };
    let cleanup_files = match deserialize_humantime_duration(&file.cleanup_files_duration) {
        Ok(v) => v,
        Err(e) => {
            return Err(e);
        },
    };
    Ok(
        Config {
            listen_addr: string_or(file.listen_addr, LISTEN_ADDR),
            base_url: string_or(file.base_url, BASE_URL),
            upload_file_dir: string_or(file.upload_file_dir, UPLOAD_FILE_DIR),
            database_file: string_or(file.database_file, DATABASE_FILE),
            gen_tail_max_attamps: usize_or(file.gen_tail_max_attamps, GEN_TAIL_MAX_ATTAMPS),
            default_tail_len: usize_or(file.default_tail_len, DEFAULT_TAIL_LEN),
            min_expire_duration: i64_or(min_expire, MIN_EXPIRE_AGE),
            max_expire_duration: i64_or(max_expire, MAX_EXPIRE_AGE),
            max_file_size: usize_or(file.max_file_size, MAX_FILE_SIZE),
            cleanup_urls_duration: i64_or(cleanup_urls, CLEANUP_URLS_DURATION as i64) as u64,
            cleanup_files_duration: i64_or(cleanup_files, CLEANUP_FILES_DURATION as i64) as u64,
        },
    )
}

/// The settings to run on: those of the configuration file, where there is
/// one, else the defaults.
pub fn init_config(file: Option<ConfigFile>) -> (r: Result<Config, AppError>)
    ensures
        match file {
            Some(f) => {
                &&& r is Ok <==> f.readable()
                &&& r matches Ok(config) ==> f.merges_into(config)
                &&& r matches Err(e) ==> e is ConfigParseError
            },
            None => r matches Ok(config) && config.defaults(),
        },
{
    match file {
        Some(f) => read_config(f),
        None => Ok(Config::default()),
    }
}

/// The default settings are valid: the retention curve is defined on them.
pub proof fn lemma_defaults_valid(c: Config)
    requires
        c.defaults(),
    ensures
        c.valid(),
{
}

} // verus!
