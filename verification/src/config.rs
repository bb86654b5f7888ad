//! Settings of the controller, and the check of the schedules folder.

use vstd::prelude::*;
use vstd::string::StringExecFns;

verus! {

/// Where the settings are read from unless the command line says otherwise.
pub const DEFAULT_CONFIG_FILE: &'static str = "./config.yaml";

/// Where schedules are kept unless the settings say otherwise.
pub const DEFAULT_SCHEDULES_FOLDER: &'static str = "./schedules";

/// The log level unless the settings say otherwise.
pub const DEFAULT_LOG_LEVEL: &'static str = "info";

/// The length of a control tick in milliseconds unless the settings say otherwise.
pub const DEFAULT_POLL_DURATION: u32 = 1000;

/// The controller's tuning. Every field counts in millionths.
#[derive(Clone, Copy, Debug, PartialEq, Eq, Structural)]
pub struct KilnConfig {
    pub fuzzy_step_size: i64,
    pub max_difference: i64,
    pub proportional: i64,
    pub integral: i64,
    pub derivative: i64,
}

/// The pins the controller drives.
#[derive(Clone, Copy, Debug, PartialEq, Eq, Structural)]
pub struct GpioConfig {
    /// The heater relay's pin, by its BCM index.
    pub heater: u8,
}

/// Why the settings were refused.
#[derive(Clone, Debug, PartialEq, Eq)]
pub enum ConfigError {
    FileError(String),
    ParseError,
    InvalidScheduleFolder(String),
}

impl ConfigError {
    /// The sentence that [`ConfigError::message`] gives for this error.
    pub open spec fn message_text(self) -> Seq<char> {
        match self {
            ConfigError::FileError(source) => "Error reading config file: "@ + source@,
            ConfigError::ParseError => "Parse Error"@,
            ConfigError::InvalidScheduleFolder(folder) => "Invalid schedules folder provided "@
                + folder@,
        }
    }

    /// The error as a sentence for a person.
    pub fn message(&self) -> (text: String)
        ensures
            text@ == self.message_text(),
    {
        match self {
            ConfigError::FileError(source) => String::from_str(
                "Error reading config file: ",
            ).concat(source.as_str()),
            ConfigError::ParseError => String::from_str("Parse Error"),
            ConfigError::InvalidScheduleFolder(folder) => String::from_str(
                "Invalid schedules folder provided ",
            ).concat(folder.as_str()),
        }
    }
}

/// What [`validate_directory`] answers for a path, given what was found there.
pub open spec fn directory_verdict(dir: Seq<char>, exists: bool, is_directory: bool) -> Result<
    Seq<char>,
    Seq<char>,
> {
    if !exists {
        Err("directory doesn't exist ["@ + dir + "]"@)
    } else if !is_directory {
        Err("location is not a directory ["@ + dir + "]"@)
    } else {
        Ok(dir)
    }
}

/// Accepts `dir` as the schedules folder where something `exists` at that
/// path and it `is_directory`; the caller looks at the file system and
/// passes what it found.
pub fn validate_directory(dir: String, exists: bool, is_directory: bool) -> (checked: Result<
    String,
    ConfigError,
>)
    ensures
        match directory_verdict(dir@, exists, is_directory) {
            Ok(path) => checked matches Ok(folder) && folder@ == path,
            Err(reason) => checked matches Err(ConfigError::InvalidScheduleFolder(text)) && text@
                == reason,
        },
{
    if !exists {
        Err(
            ConfigError::InvalidScheduleFolder(
                String::from_str("directory doesn't exist [").concat(dir.as_str()).concat("]"),
            ),
        )
    } else if !is_directory {
        Err(
            ConfigError::InvalidScheduleFolder(
                String::from_str("location is not a directory [").concat(dir.as_str()).concat("]"),
            ),
        )
    } else {
        Ok(dir)
    }
}

/// The web server's settings as the settings file writes them.
#[derive(Clone, Debug, PartialEq, Eq)]
pub struct WebConfigSection {
    pub port: u16,
    pub host_ip: String,
    pub keep_alive_interval: u32,
}

/// The settings file. What may be left out is an `Option`.
#[derive(Clone, Debug, PartialEq, Eq)]
pub struct ConfigFile {
    pub log_level: Option<String>,
    pub schedules_folder: Option<String>,
    pub web: WebConfigSection,
    pub poll_interval: Option<u32>,
    pub thermocouple_address: u16,
    pub gpio: GpioConfig,
    pub kiln: KilnConfig,
}

/// The web server's settings.
#[derive(Clone, Copy, Debug, PartialEq, Eq)]
pub struct WebConfig {
    pub port: u16,
    /// The four numbers of the IPv4 address to listen on.
    pub host_ip: [u8; 4],
    /// The milliseconds between two pings of the clients.
    pub keep_alive_interval: u32,
}

/// The settings of the controller, every one of them decided.
#[derive(Clone, Debug, PartialEq, Eq)]
pub struct Config {
    pub log_level: String,
    pub schedules_folder: String,
    pub web: WebConfig,
    /// The length of a control tick in milliseconds.
    pub poll_interval: u32,
    pub thermocouple_address: u16,
    pub gpio: GpioConfig,
    pub kiln: KilnConfig,
}

/// The text, or the default where there is none.
pub open spec fn text_or(text: Option<String>, default: Seq<char>) -> Seq<char> {
    match text {
        Some(given) => given@,
        None => default,
    }
}

fn or_default(text: Option<String>, default: &str) -> (chosen: String)
    ensures
        chosen@ == text_or(text, default@),
{
    match text {
        Some(given) => given,
        None => String::from_str(default),
    }
}

impl Config {
    /// Decides the settings from the settings file: what the file leaves
    /// out takes its default. `host_ip` is the IPv4 address that the file's
    /// `web.host_ip` writes, or `None` where it writes none, which is a parse
    /// error.
    pub fn try_from(value: ConfigFile, host_ip: Option<[u8; 4]>) -> (config: Result<
        Config,
        ConfigError,
    >)
        ensures
            match host_ip {
                None => config == Err::<Config, ConfigError>(ConfigError::ParseError),
                Some(address) => config matches Ok(decided) && decided.log_level@ == text_or(
                    value.log_level,
                    DEFAULT_LOG_LEVEL@,
                ) && decided.schedules_folder@ == text_or(
                    value.schedules_folder,
                    DEFAULT_SCHEDULES_FOLDER@,
                ) && decided.web == (WebConfig {
                    port: value.web.port,
                    host_ip: address,
                    keep_alive_interval: value.web.keep_alive_interval,
                }) && decided.poll_interval == (match value.poll_interval {
                    Some(interval) => interval,
                    None => DEFAULT_POLL_DURATION,
                }) && decided.thermocouple_address == value.thermocouple_address && decided.gpio
                    == value.gpio && decided.kiln == value.kiln,
            },
    {
        let address = match host_ip {
            Some(address) => address,
            None => {
                return Err(ConfigError::ParseError);
            },
        };
        Ok(
            Config {
                log_level: or_default(value.log_level, DEFAULT_LOG_LEVEL),
                schedules_folder: or_default(value.schedules_folder, DEFAULT_SCHEDULES_FOLDER),
                web: WebConfig {
                    port: value.web.port,
                    host_ip: address,
                    keep_alive_interval: value.web.keep_alive_interval,
                },
                poll_interval: match value.poll_interval {
                    Some(interval) => interval,
                    None => DEFAULT_POLL_DURATION,
                },
                thermocouple_address: value.thermocouple_address,
                gpio: value.gpio,
                kiln: value.kiln,
            },
        )
    }

    /// The schedules folder to use: the one from the command line, or the
    /// one of the settings where the command line names none.
    pub fn folder_with(&self, from_command_line: &Option<String>) -> (folder: String)
        ensures
            folder@ == text_or(*from_command_line, self.schedules_folder@),
    {
        match from_command_line {
            Some(given) => given.clone(),
            None => self.schedules_folder.clone(),
        }
    }

    /// The settings with the schedules folder of the command line in place
    /// of their own, if the command line names one. The folder has to pass
    /// [`validate_directory`]: the caller says whether something `exists` at
    /// the folder given by [`Config::folder_with`] and whether it
    /// `is_directory`.
    pub fn with_cli(
        self,
        from_command_line: Option<String>,
        exists: bool,
        is_directory: bool,
    ) -> (config: Result<Config, ConfigError>)
        ensures
            match directory_verdict(
                text_or(from_command_line, self.schedules_folder@),
                exists,
                is_directory,
            ) {
                Ok(path) => config matches Ok(decided) && decided.schedules_folder@ == path
                    && decided.log_level == self.log_level && decided.web == self.web
                    && decided.poll_interval == self.poll_interval && decided.thermocouple_address
                    == self.thermocouple_address && decided.gpio == self.gpio && decided.kiln
                    == self.kiln,
                Err(reason) => config matches Err(ConfigError::InvalidScheduleFolder(text)) && text@
                    == reason,
            },
    {
        let folder = match from_command_line {
            Some(given) => given,
            None => self.schedules_folder,
        };
        match validate_directory(folder, exists, is_directory) {
            Ok(schedules_folder) => Ok(
                Config {
                    log_level: self.log_level,
                    schedules_folder,
                    web: self.web,
                    poll_interval: self.poll_interval,
                    thermocouple_address: self.thermocouple_address,
                    gpio: self.gpio,
                    kiln: self.kiln,
                },
            ),
            Err(error) => Err(error),
        }
    }
}

} // verus!
