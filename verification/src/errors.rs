//! Error types of the library.
use vstd::prelude::*;
use crate::numbers::IntErrorKind;

verus! {

/// Failures while reading the XML of a Live set.
#[derive(Debug)]
pub enum XmlParseError {
    DataNotFound,
    RootTagNotFound,
    /// A name or value was not valid UTF-8.
    Utf8Error,
    /// quick-xml could not read an attribute.
    AttrError,
    InvalidStructure,
    /// quick-xml refused the document.
    QuickXmlError,
    /// No event of the requested name.
    EventNotFound(String),
    MissingRequiredAttribute(String),
    UnknownPluginFormat(String),
}

/// Failures while finding the tempo.
#[derive(Debug)]
pub enum TempoError {
    XmlError(XmlParseError),
    TempoNotFound,
    InvalidTempoValue,
}

/// A tag or attribute looked for among collected tags is missing.
#[derive(Debug)]
pub enum AttributeError {
    /// The tag is there but lacks the attribute (its name).
    ValueNotFound(String),
    /// No tag of that name (its name).
    NotFound(String),
}

/// Failures while finding the samples of a Live set.
#[derive(Debug)]
pub enum SampleError {
    /// The stored path is not a string of hexadecimal digit pairs.
    HexDecodeError,
    InvalidUtf16Encoding,
    PathProcessingError(String),
    FileNotFound(String),
    FileReadError(String),
    XmlError(XmlParseError),
    AttributeError(AttributeError),
    MacFormatDetectionError(String),
    MacAliasDecodeError(String),
    MacBookmarkDecodeError(String),
    NoPathFound,
}

/// Failures while reading the time signature of a Live set.
#[derive(Debug)]
pub enum TimeSignatureError {
    /// The stored value is not an `i32`.
    ParseEncodedError(IntErrorKind),
    /// The stored value is outside `0..=494`.
    InvalidEncodedValue(i32),
    EnumEventNotFound,
    ValueAttributeNotFound,
}

/// Failures while reading the Live version of a set.
#[derive(Debug)]
pub enum VersionError {
    /// A version number is not a `u32`.
    ParseError(IntErrorKind),
    MissingInfo,
    InvalidFormat,
    Utf8Error,
    XmlParseError(XmlParseError),
    InvalidFileStructure(String),
    MissingRequiredAttribute(String),
    /// quick-xml could not read an attribute.
    AttrError,
}

/// Failures while finding the plugins of a Live set.
#[derive(Debug)]
pub enum PluginError {
    XmlError(XmlParseError),
    AttributeError(AttributeError),
    UnexpectedPluginType(String),
    /// The plugin database of Live could not be read (the reason).
    DatabaseError(String),
    ConfigError(ConfigError),
}

/// Failures while reading a Live set.
#[derive(Debug)]
pub enum LiveSetError {
    XmlError(XmlParseError),
    InvalidVersion(String),
    UnsupportedVersion(u32),
    MissingVersion,
    TempoError(TempoError),
    TimeSignatureError(TimeSignatureError),
    SampleError(SampleError),
    VersionError(VersionError),
    AttributeError(AttributeError),
    PluginError(PluginError),
    CreateLiveSetError(String),
    InvalidProject(String),
}

/// Failures of the configuration.
#[derive(Debug)]
pub enum ConfigError {
    /// Reading or writing failed (the reason).
    IoError(String),
    /// The file is not valid TOML for a configuration (the reason).
    ParseError(String),
    HomeDirError,
    InvalidPath(String),
    InvalidValue(String),
    PortOutOfRange(u16),
    InvalidDirectory(String),
    PermissionDenied(String),
    /// The configuration could not be written as TOML (the reason).
    SerializeError(String),
}

/// Failures around the files of Live sets (paths are given as text).
#[derive(Debug)]
pub enum FileError {
    InvalidFormat(String),
    NameError(String),
    NotFound(String),
    NotAFile(String),
    InvalidExtension(String),
    InvalidLiveSetFile(String),
    XmlError(XmlParseError),
    MetadataError(String),
    HashingError(String),
    GzipDecompressionError(String),
}

} // verus!
