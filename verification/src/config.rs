use vstd::prelude::*;

verus! {

/// The two directions in which the catalog may be corrected after it was
/// held against the files on disk.
#[derive(Clone, Copy, Debug, PartialEq, Eq)]
pub struct FixMarkDownloadedInfo {
    /// Flag what is on disk and not flagged.
    pub mark_downloaded: bool,
    /// Unflag what is flagged and not on disk.
    pub unmark_downloaded: bool,
}

/// What the operator has set.
#[derive(Debug, PartialEq, Eq)]
pub struct Config {
    pub refresh_token_schedule: String,
    pub search_new_items_schedule: String,
    pub download_photos_schedule: String,
    pub search_days_back: i32,
    pub search_limit: usize,
    pub download_files_parallel: i32,
    pub storage_location: String,
    pub fix_downloaded_info: FixMarkDownloadedInfo,
}

impl Config {
    /// The settings, from their parts.
    pub fn new(
        refresh_token_schedule: String,
        search_new_items_schedule: String,
        download_photos_schedule: String,
        search_days_back: i32,
        search_limit: usize,
        download_files_parallel: i32,
        storage_location: String,
        fix_downloaded_info: FixMarkDownloadedInfo,
    ) -> (config: Config)
        ensures
            config == (Config {
                refresh_token_schedule,
                search_new_items_schedule,
                download_photos_schedule,
                search_days_back,
                search_limit,
                download_files_parallel,
                storage_location,
                fix_downloaded_info,
            }),
    {
        Config {
            refresh_token_schedule,
            search_new_items_schedule,
            download_photos_schedule,
            search_days_back,
            search_limit,
            download_files_parallel,
            storage_location,
            fix_downloaded_info,
        }
    }
}

} // verus!
