//! Reading `key=value` settings, one per line.

use crate::text::trimmed;
use vstd::hash_map::StringHashMap;
use vstd::prelude::*;
use vstd::std_specs::convert::FromSpecImpl;
use vstd::string::{StrSliceExecFns, StringExecFns};

verus! {

/// The error of the standard library's input and output, carried through
/// untouched.
#[verifier::external_type_specification]
#[verifier::external_body]
pub struct ExIoError(std::io::Error);

/// The standard library's error for text that is no integer, carried through
/// untouched.
#[verifier::external_type_specification]
#[verifier::external_body]
pub struct ExParseIntError(std::num::ParseIntError);

/// Why the settings could not be had.
#[derive(Debug)]
pub enum ConfigError {
    Io(std::io::Error),
    ParseIntError(std::num::ParseIntError),
    /// A line that is not one key and one value around a single `=`.
    InvalidFormat(String),
    InvalidValue(String, String),
    MissingSetting(String),
}

impl From<std::io::Error> for ConfigError {
    fn from(value: std::io::Error) -> (error: Self) {
        ConfigError::Io(value)
    }
}

impl FromSpecImpl<std::io::Error> for ConfigError {
    open spec fn obeys_from_spec() -> bool {
        true
    }

    open spec fn from_spec(value: std::io::Error) -> Self {
        ConfigError::Io(value)
    }
}

impl From<std::num::ParseIntError> for ConfigError {
    fn from(value: std::num::ParseIntError) -> (error: Self) {
        ConfigError::ParseIntError(value)
    }
}

impl FromSpecImpl<std::num::ParseIntError> for ConfigError {
    open spec fn obeys_from_spec() -> bool {
        true
    }

    open spec fn from_spec(value: std::num::ParseIntError) -> Self {
        ConfigError::ParseIntError(value)
    }
}

/// `std::io::Error::new` with the kind `NotFound`: an error that carries
/// `message`.
#[verifier::external_body]
fn not_found(message: &str) -> std::io::Error {
    std::io::Error::new(std::io::ErrorKind::NotFound, message)
}

/// The file the default settings are looked for in.
pub const DEFAULT_CONFIG_PATH: &'static str = "./src/config.txt";

/// Where the settings are read from.
pub struct Config {
    config_path: String,
}

impl Clone for Config {
    fn clone(&self) -> (copy: Self)
        ensures
            copy == *self,
    {
        Config { config_path: self.config_path.clone() }
    }
}

impl Config {
    /// The path of the settings file.
    pub closed spec fn path(&self) -> Seq<char> {
        self.config_path@
    }

    pub fn get_config_path(&self) -> (path: &str)
        ensures
            path@ == self.path(),
    {
        self.config_path.as_str()
    }

    /// Decides where the settings are read from: from `config_path` if a
    /// file is there (`path_exists`), else from the default file if that one
    /// is there (`default_exists`), else from nowhere.
    pub fn new(config_path: &str, path_exists: bool, default_exists: bool) -> (made: Result<
        Self,
        ConfigError,
    >)
        ensures
            path_exists ==> (made matches Ok(config) && config.path() == config_path@),
            !path_exists && default_exists ==> (made matches Ok(config) && config.path()
                == DEFAULT_CONFIG_PATH@),
            !path_exists && !default_exists ==> made matches Err(ConfigError::Io(_)),
    {
        if path_exists {
            Ok(Self { config_path: String::from_str(config_path) })
        } else if default_exists {
            Ok(Self { config_path: String::from_str(DEFAULT_CONFIG_PATH) })
        } else {
            Err(ConfigError::Io(not_found("No config.txt file was found")))
        }
    }
}

/// `at` is the place of the only `=` in `text`.
pub open spec fn splits_at(text: Seq<char>, at: int) -> bool {
    &&& 0 <= at < text.len()
    &&& text[at] == '='
    &&& forall|i: int| 0 <= i < text.len() && i != at ==> text[i] != '='
}

/// Once the white space around `line` is gone, it holds exactly one `=`.
pub open spec fn is_setting(line: Seq<char>) -> bool {
    exists|at: int| #[trigger] splits_at(trimmed(line), at)
}

/// The place of the `=` in a line that is a setting.
pub open spec fn split_point(line: Seq<char>) -> int {
    choose|at: int| splits_at(trimmed(line), at)
}

/// The key of a line that is a setting.
pub open spec fn key_of(line: Seq<char>) -> Seq<char> {
    trimmed(line).subrange(0, split_point(line))
}

/// The value of a line that is a setting.
pub open spec fn value_of(line: Seq<char>) -> Seq<char> {
    trimmed(line).subrange(split_point(line) + 1, trimmed(line).len() as int)
}

/// `settings` after `lines`, all of them settings, were read in order.
pub open spec fn read_all(settings: Map<Seq<char>, Seq<char>>, lines: Seq<String>) -> Map<
    Seq<char>,
    Seq<char>,
>
    decreases lines.len(),
{
    if lines.len() == 0 {
        settings
    } else {
        read_all(settings, lines.drop_last()).insert(key_of(lines.last()@), value_of(lines.last()@))
    }
}

/// A line has its `=` in one place only.
pub proof fn lemma_split_point(line: Seq<char>, at: int)
    requires
        splits_at(trimmed(line), at),
    ensures
        split_point(line) == at,
{
    let other = split_point(line);
    assert(splits_at(trimmed(line), other));
    if other != at {
        assert(trimmed(line)[other] != '=');
    }
}

/// The settings read so far, and where they come from.
pub struct ConfigReader {
    config: Config,
    values: StringHashMap<String>,
}

impl ConfigReader {
    /// The settings read so far: the value of each key.
    pub closed spec fn settings(&self) -> Map<Seq<char>, Seq<char>> {
        self.values@.map_values(|value: String| value@)
    }

    /// Where the settings come from.
    pub closed spec fn config(&self) -> Config {
        self.config
    }

    /// A reader without settings for a copy of `config`; there has to be a
    /// configuration.
    pub fn new(config: Option<&Config>) -> (made: Result<Self, ConfigError>)
        ensures
            match config {
                Some(given) => {
                    &&& made matches Ok(reader)
                    &&& reader.config() == *given
                    &&& reader.settings() == Map::<Seq<char>, Seq<char>>::empty()
                },
                None => made matches Err(ConfigError::Io(_)),
            },
    {
        let config = if let Some(val) = config {
            val.clone()
        } else {
            return Err(
                ConfigError::Io(
                    not_found(
                        "Could not find a valid configuration, please pass a valid configuration",
                    ),
                ),
            );
        };
        let reader = Self { config, values: StringHashMap::new() };
        proof {
            assert(reader.settings() =~= Map::<Seq<char>, Seq<char>>::empty());
        }
        Ok(reader)
    }

    /// Splits `text` at its only `=`: what stands before it and what stands
    /// behind it.  Text without a `=`, or with several, does not split.
    pub fn split_setting(text: &str) -> (parts: Option<(&str, &str)>)
        ensures
            match parts {
                Some((key, value)) => exists|at: int|
                    {
                        &&& #[trigger] splits_at(text@, at)
                        &&& key@ == text@.subrange(0, at)
                        &&& value@ == text@.subrange(at + 1, text@.len() as int)
                    },
                None => forall|at: int| !splits_at(text@, at),
            },
    {
        let length = text.unicode_len();
        let mut first: Option<usize> = None;
        let mut several = false;
        let mut i: usize = 0;
        while i < length
            invariant
                i <= length,
                length == text@.len(),
                match first {
                    Some(at) => at < i && text@[at as int] == '=' && (several <==> exists|j: int|
                        0 <= j < i && j != at && text@[j] == '=') && forall|j: int|
                        0 <= j < at ==> text@[j] != '=',
                    None => !several && forall|j: int| 0 <= j < i ==> text@[j] != '=',
                },
            decreases length - i,
        {
            if text.get_char(i) == '=' {
                match first {
                    Some(_) => {
                        several = true;
                    },
                    None => {
                        first = Some(i);
                    },
                }
            }
            i += 1;
        }
        match first {
            Some(at) => {
                if several {
                    proof {
                        let other = choose|j: int| 0 <= j < length && j != at && text@[j] == '=';
                        assert forall|p: int| !splits_at(text@, p) by {
                            if splits_at(text@, p) {
                                if p == at {
                                    assert(text@[other] != '=');
                                } else {
                                    assert(text@[at as int] != '=');
                                }
                            }
                        }
                    }
                    None
                } else {
                    let key = text.substring_char(0, at);
                    let value = text.substring_char(at + 1, length);
                    proof {
                        assert(splits_at(text@, at as int));
                    }
                    Some((key, value))
                }
            },
            None => None,
        }
    }

    /// Splits a line into key and value.  Once the white space around the
    /// line is gone, it has to hold exactly one `=`: the key is what stands
    /// before it, the value what stands behind.
    pub fn get_values(val: &str) -> (parts: Result<(&str, &str), ConfigError>)
        ensures
            match parts {
                Ok((key, value)) => {
                    &&& is_setting(val@)
                    &&& key@ == key_of(val@)
                    &&& value@ == value_of(val@)
                },
                Err(error) => {
                    &&& error matches ConfigError::InvalidFormat(line)
                    &&& line@ == val@
                    &&& !is_setting(val@)
                },
            },
    {
        match Self::split_setting(val.trim()) {
            Some((key, value)) => {
                proof {
                    let at = choose|at: int|
                        {
                            &&& #[trigger] splits_at(trimmed(val@), at)
                            &&& key@ == trimmed(val@).subrange(0, at)
                            &&& value@ == trimmed(val@).subrange(
                                at + 1,
                                trimmed(val@).len() as int,
                            )
                        };
                    lemma_split_point(val@, at);
                }
                Ok((key, value))
            },
            None => Err(ConfigError::InvalidFormat(String::from_str(val))),
        }
    }

    /// Reads one line into the settings.  A key that was read before gets
    /// the new value.
    pub fn store_line(&mut self, line: &str) -> (done: Result<(), ConfigError>)
        ensures
            final(self).config() == old(self).config(),
            match done {
                Ok(()) => {
                    &&& is_setting(line@)
                    &&& final(self).settings() == old(self).settings().insert(
                        key_of(line@),
                        value_of(line@),
                    )
                },
                Err(error) => {
                    &&& error matches ConfigError::InvalidFormat(text)
                    &&& text@ == line@
                    &&& !is_setting(line@)
                    &&& final(self).settings() == old(self).settings()
                },
            },
    {
        match Self::get_values(line) {
            Ok((key, value)) => {
                self.values.insert(String::from_str(key), String::from_str(value));
                proof {
                    assert(final(self).settings() =~= old(self).settings().insert(key@, value@));
                }
                Ok(())
            },
            Err(error) => Err(error),
        }
    }

    /// Reads `lines` into the settings, one after the other, up to the first
    /// line that cannot be split; the lines before it stay read.  Gives the
    /// settings if every line was read.
    pub fn load_config(&mut self, lines: &[String]) -> (loaded: Result<
        &StringHashMap<String>,
        ConfigError,
    >)
        ensures
            final(self).config() == old(self).config(),
            match loaded {
                Ok(values) => {
                    &&& values@.map_values(|value: String| value@) == final(self).settings()
                    &&& forall|i: int| 0 <= i < lines@.len() ==> is_setting(#[trigger] lines@[i]@)
                    &&& final(self).settings() == read_all(old(self).settings(), lines@)
                },
                Err(error) => {
                    &&& error matches ConfigError::InvalidFormat(text)
                    &&& exists|i: int|
                        {
                            &&& 0 <= i < lines@.len()
                            &&& text@ == (#[trigger] lines@[i])@
                            &&& !is_setting(lines@[i]@)
                            &&& forall|j: int| 0 <= j < i ==> is_setting(#[trigger] lines@[j]@)
                            &&& final(self).settings() == read_all(
                                old(self).settings(),
                                lines@.take(i),
                            )
                        }
                },
            },
    {
        let mut i: usize = 0;
        proof {
            assert(lines@.take(0) =~= Seq::<String>::empty());
        }
        while i < lines.len()
            invariant
                i <= lines.len(),
                self.config() == old(self).config(),
                forall|j: int| 0 <= j < i ==> is_setting(#[trigger] lines@[j]@),
                self.settings() == read_all(old(self).settings(), lines@.take(i as int)),
            decreases lines.len() - i,
        {
            proof {
                assert(lines@.take(i + 1).drop_last() =~= lines@.take(i as int));
                assert(lines@.take(i + 1).last() == lines@[i as int]);
            }
            match self.store_line(lines[i].as_str()) {
                Ok(()) => {},
                Err(error) => {
                    proof {
                        assert(!is_setting(lines@[i as int]@));
                    }
                    return Err(error);
                },
            }
            i += 1;
        }
        proof {
            assert(lines@.take(i as int) =~= lines@);
        }
        Ok(&self.values)
    }

    /// The value read for `key`, if one was read.
    pub fn get_setting(&self, key: &str) -> (value: Option<&str>)
        ensures
            match value {
                Some(text) => self.settings().contains_key(key@) && self.settings()[key@]
                    == text@,
                None => !self.settings().contains_key(key@),
            },
    {
        match self.values.get(key) {
            Some(text) => Some(text.as_str()),
            None => None,
        }
    }
}

} // verus!
