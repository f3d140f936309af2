//! The settings of the user.
use crate::paths::default_output_dir;
use vstd::prelude::*;

verus! {

/// How long the portal may take to answer, in seconds, unless the configuration says otherwise.
pub const DEFAULT_PORTAL_TIMEOUT_SECONDS: u64 = 60;

/// What the configuration file says. Each setting may be missing.
#[derive(Debug)]
pub struct FileConfig {
    pub output_dir: Option<Vec<u8>>,
    pub portal_timeout_seconds: Option<u64>,
}

/// The settings in force.
#[derive(Debug)]
pub struct Config {
    pub output_dir: Vec<u8>,
    pub portal_timeout_seconds: u64,
}

impl Config {
    /// The settings without any configuration, for a user whose pictures are kept in `pictures`.
    pub fn standard(pictures: Option<Vec<u8>>) -> (config: Config)
        ensures
            config.output_dir@ == crate::paths::file_in(
                crate::paths::or_current(pictures),
                "Screenshots"@,
            ),
            config.portal_timeout_seconds == DEFAULT_PORTAL_TIMEOUT_SECONDS,
    {
        Config {
            output_dir: default_output_dir(pictures),
            portal_timeout_seconds: DEFAULT_PORTAL_TIMEOUT_SECONDS,
        }
    }
}

/// The output directory in force.
pub open spec fn output_dir_in_force(
    file: Option<FileConfig>,
    pictures: Option<Vec<u8>>,
) -> Seq<u8> {
    if file is Some && file->0.output_dir is Some {
        file->0.output_dir->0@
    } else {
        crate::paths::file_in(crate::paths::or_current(pictures), "Screenshots"@)
    }
}

/// The timeout in force.
pub open spec fn timeout_in_force(file: Option<FileConfig>) -> u64 {
    if file is Some && file->0.portal_timeout_seconds is Some {
        file->0.portal_timeout_seconds->0
    } else {
        60
    }
}

/// The settings in force: what the file says, and the standard setting for whatever it leaves
/// out. A file that is missing or cannot be understood leaves out everything.
pub fn load_config(file: Option<FileConfig>, pictures: Option<Vec<u8>>) -> (config: Config)
    ensures
        config.output_dir@ == match file {
            Some(FileConfig { output_dir: Some(directory), .. }) => directory@,
            _ => crate::paths::file_in(crate::paths::or_current(pictures), "Screenshots"@),
        },
        config.portal_timeout_seconds == match file {
            Some(FileConfig { portal_timeout_seconds: Some(seconds), .. }) => seconds,
            _ => DEFAULT_PORTAL_TIMEOUT_SECONDS,
        },
        config.output_dir@ == output_dir_in_force(file, pictures),
        config.portal_timeout_seconds == timeout_in_force(file),
{
    let standard: Config = Config::standard(pictures);
    match file {
        None => standard,
        Some(file) => Config {
            output_dir: match file.output_dir {
                Some(directory) => directory,
                None => standard.output_dir,
            },
            portal_timeout_seconds: match file.portal_timeout_seconds {
                Some(seconds) => seconds,
                None => standard.portal_timeout_seconds,
            },
        },
    }
}

/// Each setting of the file is in force as it stands there, whatever the others are, and zero
/// seconds are a setting. Each that is missing has its standard value: `Screenshots` under the
/// user's pictures, and 60 seconds.
pub proof fn law_the_file_wins(
    directory: Vec<u8>,
    seconds: u64,
    other_directory: Option<Vec<u8>>,
    other_seconds: Option<u64>,
    pictures: Option<Vec<u8>>,
)
    ensures
        output_dir_in_force(
            Some(
                FileConfig {
                    output_dir: Some(directory),
                    portal_timeout_seconds: other_seconds,
                },
            ),
            pictures,
        ) == directory@,
        timeout_in_force(
            Some(
                FileConfig {
                    output_dir: other_directory,
                    portal_timeout_seconds: Some(seconds),
                },
            ),
        ) == seconds,
        output_dir_in_force(
            Some(FileConfig { output_dir: None, portal_timeout_seconds: other_seconds }),
            pictures,
        ) == crate::paths::file_in(crate::paths::or_current(pictures), "Screenshots"@),
        timeout_in_force(
            Some(FileConfig { output_dir: other_directory, portal_timeout_seconds: None }),
        ) == 60,
        output_dir_in_force(None, pictures) == crate::paths::file_in(
            crate::paths::or_current(pictures),
            "Screenshots"@,
        ),
        timeout_in_force(None) == 60,
{
}

} // verus!
