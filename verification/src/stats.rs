//! Statistics reported about the collection: batches inserted, media files,
//! plugins and samples.
use vstd::prelude::*;
use std::collections::HashMap;

verus! {

/// What a batch insert added.
#[derive(Debug, Default, Clone, Copy, PartialEq, Eq, Structural)]
pub struct BatchStats {
    pub projects_inserted: usize,
    pub plugins_inserted: usize,
    pub samples_inserted: usize,
}

/// Counts and sizes of the media files.
#[derive(Debug, Clone, Copy, PartialEq, Eq, Structural)]
pub struct MediaFileStats {
    pub cover_art_count: u32,
    pub cover_art_total_size_bytes: u64,
    pub audio_file_count: u32,
    pub audio_file_total_size_bytes: u64,
}

impl MediaFileStats {
    /// Cover art and audio files together.
    pub fn total_files(&self) -> (res: u32)
        requires
            self.cover_art_count + self.audio_file_count <= u32::MAX,
        ensures
            res == self.cover_art_count + self.audio_file_count,
    {
        self.cover_art_count + self.audio_file_count
    }

    /// The size of cover art and audio files together.
    pub fn total_size_bytes(&self) -> (res: u64)
        requires
            self.cover_art_total_size_bytes + self.audio_file_total_size_bytes <= u64::MAX,
        ensures
            res == self.cover_art_total_size_bytes + self.audio_file_total_size_bytes,
    {
        self.cover_art_total_size_bytes + self.audio_file_total_size_bytes
    }
}

/// Plugin counts, by format and by vendor.
#[derive(Debug)]
pub struct PluginStats {
    pub total_plugins: i32,
    pub installed_plugins: i32,
    pub missing_plugins: i32,
    pub unique_vendors: i32,
    pub plugins_by_format: HashMap<String, i32>,
    pub plugins_by_vendor: HashMap<String, i32>,
}

/// What a check of installed plugins changed.
#[derive(Debug, Clone, Copy, PartialEq, Eq, Structural)]
pub struct PluginRefreshResult {
    pub total_plugins_checked: i32,
    pub plugins_now_installed: i32,
    pub plugins_now_missing: i32,
    pub plugins_unchanged: i32,
}

/// The plugins of one vendor.
#[derive(Debug)]
pub struct VendorInfo {
    pub vendor: String,
    pub plugin_count: i32,
    pub installed_plugins: i32,
    pub missing_plugins: i32,
    pub total_usage_count: i32,
    pub unique_projects_using: i32,
    pub plugins_by_format: HashMap<String, i32>,
}

/// The plugins of one format.
#[derive(Debug)]
pub struct FormatInfo {
    pub format: String,
    pub plugin_count: i32,
    pub installed_plugins: i32,
    pub missing_plugins: i32,
    pub total_usage_count: i32,
    pub unique_projects_using: i32,
    pub plugins_by_vendor: HashMap<String, i32>,
}

/// Sample counts, by file extension.
#[derive(Debug)]
pub struct SampleStats {
    pub total_samples: i32,
    pub present_samples: i32,
    pub missing_samples: i32,
    pub unique_paths: i32,
    pub samples_by_extension: HashMap<String, i32>,
    pub total_estimated_size_bytes: i64,
}

/// How much one sample is used.
#[derive(Debug)]
pub struct SampleUsageInfo {
    pub sample_id: String,
    pub name: String,
    pub path: String,
    pub usage_count: i32,
    pub project_count: i32,
}

/// What a check of present samples changed.
#[derive(Debug, Clone, Copy, PartialEq, Eq, Structural)]
pub struct SampleRefreshResult {
    pub total_samples_checked: i32,
    pub samples_now_present: i32,
    pub samples_now_missing: i32,
    pub samples_unchanged: i32,
}

} // verus!
