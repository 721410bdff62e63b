//! Error surface of the library. Every failure a component reports is
//! wrapped into one of these kinds at its boundary.

use vstd::prelude::*;

verus! {

/// The error kinds commands and components return.
#[derive(Clone, Debug)]
pub enum AppError {
    ProbeError(String),
    NotConnected,
    FlashError(String),
    MemoryError(String),
    RttError(String),
    PackError(String),
    FileError(String),
    ConfigError(String),
    IoError(String),
    SerdeError(String),
    ValidationError(String),
}

impl AppError {
    /// A short label naming the kind, for logs and user-facing text.
    pub fn kind_label(&self) -> (r: &'static str)
        ensures
            r@ == match self {
                AppError::ProbeError(_) => "probe"@,
                AppError::NotConnected => "not-connected"@,
                AppError::FlashError(_) => "flash"@,
                AppError::MemoryError(_) => "memory"@,
                AppError::RttError(_) => "rtt"@,
                AppError::PackError(_) => "pack"@,
                AppError::FileError(_) => "file"@,
                AppError::ConfigError(_) => "config"@,
                AppError::IoError(_) => "io"@,
                AppError::SerdeError(_) => "serde"@,
                AppError::ValidationError(_) => "validation"@,
            },
    {
        match self {
            AppError::ProbeError(_) => "probe",
            AppError::NotConnected => "not-connected",
            AppError::FlashError(_) => "flash",
            AppError::MemoryError(_) => "memory",
            AppError::RttError(_) => "rtt",
            AppError::PackError(_) => "pack",
            AppError::FileError(_) => "file",
            AppError::ConfigError(_) => "config",
            AppError::IoError(_) => "io",
            AppError::SerdeError(_) => "serde",
            AppError::ValidationError(_) => "validation",
        }
    }

    /// The detail text carried by the error, empty when it has none.
    pub fn detail(&self) -> (r: String)
        ensures
            r@ == match self {
                AppError::ProbeError(m) => m@,
                AppError::NotConnected => Seq::<char>::empty(),
                AppError::FlashError(m) => m@,
                AppError::MemoryError(m) => m@,
                AppError::RttError(m) => m@,
                AppError::PackError(m) => m@,
                AppError::FileError(m) => m@,
                AppError::ConfigError(m) => m@,
                AppError::IoError(m) => m@,
                AppError::SerdeError(m) => m@,
                AppError::ValidationError(m) => m@,
            },
    {
        match self {
            AppError::ProbeError(m) => m.clone(),
            AppError::NotConnected => String::new(),
            AppError::FlashError(m) => m.clone(),
            AppError::MemoryError(m) => m.clone(),
            AppError::RttError(m) => m.clone(),
            AppError::PackError(m) => m.clone(),
            AppError::FileError(m) => m.clone(),
            AppError::ConfigError(m) => m.clone(),
            AppError::IoError(m) => m.clone(),
            AppError::SerdeError(m) => m.clone(),
            AppError::ValidationError(m) => m.clone(),
        }
    }
}

pub type AppResult<T> = Result<T, AppError>;

} // verus!
