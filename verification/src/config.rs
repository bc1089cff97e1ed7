//! The configuration of the display driver, and why a configuration could not
//! be loaded.

use vstd::prelude::*;

verus! {

/// The port that the server listens on where the configuration names none.
pub const DEFAULT_PORT: u16 = 8081;

/// The port that the server listens on where the configuration names none.
pub fn default_port() -> (port: u16)
    ensures
        port == DEFAULT_PORT,
{
    DEFAULT_PORT
}

/// Which driver shows the frames, with its options.
#[derive(Debug)]
pub enum DisplayConfigDriver {
    /// A window on the desktop, of the given size.
    WinitPixels { width: u32, height: u32 },
    /// A display in memory, of the given size.
    Fake { width: u32, height: u32 },
    /// The terminal.
    Ratatui,
    /// An RGB LED matrix.
    RgbLedMatrix {
        panel_rows: u32,
        panel_columns: u32,
        daisy_chains: Option<u32>,
        parallel_chains: Option<u32>,
        pixel_mapper_config: Option<String>,
        row_addr_type: Option<u32>,
        led_rgb_sequence: Option<String>,
        multiplexing: Option<u32>,
        panel_type: Option<String>,
        scan_mode: Option<u32>,
        hardware_pulsing: Option<bool>,
        limit_refresh: Option<u32>,
        pwm_bits: Option<u8>,
        pwm_dither_bits: Option<u32>,
        pwm_lsb_nanoseconds: Option<u32>,
        gpio_slowdown: Option<u32>,
    },
}

/// Why the configuration could not be loaded.
#[derive(Debug)]
pub enum ConfigLoadError {
    /// No file at the path that the environment names.
    FileNotFound { path: String },
    /// The environment names no path, and no file is at the default path.
    EnvironmentVariableNotSet { default_path: String },
    /// The file is no valid configuration; the text says why.
    MalformedConfig { error: String },
    /// The file could not be read; the text says why.
    IoError { error: String },
    /// The configuration holds a value that cannot be used.
    InvalidConfig { details: String },
}

/// The error to report where loading from the chosen path failed with
/// `error`: a missing file at the default path means that the environment
/// should have named one; every other error stands as it is.
pub open spec fn reported(
    error: ConfigLoadError,
    env_var_set: bool,
    default_path: String,
) -> ConfigLoadError {
    if error is FileNotFound && !env_var_set {
        ConfigLoadError::EnvironmentVariableNotSet { default_path }
    } else {
        error
    }
}

/// The error to report where loading from the chosen path failed with `error`.
/// `env_var_set` says whether the environment named the path; `default_path`
/// is the path that is tried otherwise.
pub fn report_load_failure(error: ConfigLoadError, env_var_set: bool, default_path: String) -> (r:
    ConfigLoadError)
    ensures
        r == reported(error, env_var_set, default_path),
{
    match error {
        ConfigLoadError::FileNotFound { path } => {
            if !env_var_set {
                ConfigLoadError::EnvironmentVariableNotSet { default_path }
            } else {
                ConfigLoadError::FileNotFound { path }
            }
        },
        other => other,
    }
}

} // verus!
