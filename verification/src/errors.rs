//! Error types shared by the engine and the asset loader around it.

use vstd::prelude::*;
use crate::assets::LevelId;
use std::io::Error as IoError;
use toml::de::Error as TomlDeError;

verus! {

/// A generic, payload-free error marker.
#[derive(Debug, Copy, Clone)]
pub struct Error {}

/// Relies on `std::io::Error` only as an opaque payload: nothing is read
/// out of it here, it is carried inside [`LevelLoadError::Io`].
#[verifier::external_type_specification]
#[verifier::external_body]
pub struct ExIoError(IoError);

/// Relies on `toml::de::Error` only as an opaque payload: nothing is read
/// out of it here, it is carried inside [`LevelLoadError::TomlParseError`].
#[verifier::external_type_specification]
#[verifier::external_body]
pub struct ExTomlDeError(TomlDeError);

/// Everything that can go wrong while a level's assets are loaded from
/// the game-data directory tree.
#[derive(Debug)]
pub enum LevelLoadError {
    /// A file or directory could not be read.
    Io(std::io::Error),
    /// The `gamedata` path beside the executable is not a directory.
    GameDataIsNotAFolder,
    /// The level's directory is missing or is not a directory.
    InvalidLevelToLoad(LevelId),
    /// A file name in the tree is not valid Unicode.
    FileNameEncodingError,
    /// The executable has no parent directory.
    InvalidParentDirectory,
    /// The region descriptor file does not have the expected shape.
    InvalidToml,
    /// The region descriptor file is not valid TOML.
    TomlParseError(toml::de::Error),
}

impl From<std::io::Error> for LevelLoadError {
    fn from(e: std::io::Error) -> (r: Self) {
        LevelLoadError::Io(e)
    }
}

impl vstd::std_specs::convert::FromSpecImpl<std::io::Error> for LevelLoadError {
    open spec fn obeys_from_spec() -> bool {
        true
    }

    open spec fn from_spec(e: std::io::Error) -> Self {
        LevelLoadError::Io(e)
    }
}

impl From<toml::de::Error> for LevelLoadError {
    fn from(e: toml::de::Error) -> (r: Self) {
        LevelLoadError::TomlParseError(e)
    }
}

impl vstd::std_specs::convert::FromSpecImpl<toml::de::Error> for LevelLoadError {
    open spec fn obeys_from_spec() -> bool {
        true
    }

    open spec fn from_spec(e: toml::de::Error) -> Self {
        LevelLoadError::TomlParseError(e)
    }
}

} // verus!
