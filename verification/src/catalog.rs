use vstd::prelude::*;
use vstd::string::*;
use crate::clock::Timestamp;
use crate::downloader::DownloadUrl;
use crate::error::{CustomError, CustomResult};
use crate::my_db::KeyValueStore;

verus! {

/// The name under which the remote side knows one media item.
pub type MediaItemId = String;

/// The name of a file in the download directory.
pub type FileName = String;

/// Marks a media item as a photo.
#[derive(Debug, PartialEq, Eq)]
pub struct Photo {}

/// Marks a media item as a video.
#[derive(Debug, PartialEq, Eq)]
pub struct Video {}

impl Clone for Photo {
    fn clone(&self) -> (copy: Self)
        ensures
            copy == *self,
    {
        Photo {  }
    }
}

impl Clone for Video {
    fn clone(&self) -> (copy: Self)
        ensures
            copy == *self,
    {
        Video {  }
    }
}

/// What the remote side tells of an item besides its name and address.
#[derive(Debug, PartialEq, Eq)]
pub struct MediaMetaData {
    pub creation_time: Timestamp,
    pub width: Option<String>,
    pub height: Option<String>,
    pub photo: Option<Photo>,
    pub video: Option<Video>,
}

impl Clone for MediaMetaData {
    fn clone(&self) -> (copy: Self)
        ensures
            copy == *self,
    {
        MediaMetaData {
            creation_time: self.creation_time,
            width: self.width.clone(),
            height: self.height.clone(),
            photo: self.photo.clone(),
            video: self.video.clone(),
        }
    }
}

/// One media item as the remote side describes it.
#[derive(Debug, PartialEq, Eq)]
pub struct MediaItem {
    pub id: MediaItemId,
    pub base_url: String,
    pub filename: String,
    pub media_metadata: MediaMetaData,
}

impl Clone for MediaItem {
    fn clone(&self) -> (copy: Self)
        ensures
            copy == *self,
    {
        MediaItem {
            id: self.id.clone(),
            base_url: self.base_url.clone(),
            filename: self.filename.clone(),
            media_metadata: self.media_metadata.clone(),
        }
    }
}

/// When an item was fetched.
#[derive(Clone, Copy, Debug, PartialEq, Eq)]
pub struct DownloadInfo {
    pub downloaded_at: Timestamp,
}

/// What this program itself notes about an item.
#[derive(Clone, Copy, Debug, PartialEq, Eq)]
pub struct AppData {
    pub download_info: Option<DownloadInfo>,
}

/// A catalog record: the remote description of an item, what the program
/// noted about it, and the file name given to it where its own collides.
#[derive(Debug, PartialEq, Eq)]
pub struct StoredItem {
    pub media_item: MediaItem,
    pub app_data: Option<AppData>,
    pub alt_filename: Option<String>,
}

impl Clone for StoredItem {
    fn clone(&self) -> (copy: Self)
        ensures
            copy == *self,
    {
        StoredItem {
            media_item: self.media_item.clone(),
            app_data: self.app_data,
            alt_filename: self.alt_filename.clone(),
        }
    }
}

/// The catalog: stored items filed under their identifiers.
pub type StoredItemStore = KeyValueStore<StoredItem>;

/// Anything that carries the identifier of a media item.
pub trait HasMediaItemId {
    /// The identifier that the value carries.
    spec fn media_item_id(&self) -> MediaItemId;

    /// A copy of the identifier.
    fn get_media_item_id(&self) -> (id: MediaItemId)
        ensures
            id == self.media_item_id(),
    ;
}

impl HasMediaItemId for MediaItem {
    open spec fn media_item_id(&self) -> MediaItemId {
        self.id
    }

    fn get_media_item_id(&self) -> (id: MediaItemId) {
        self.id.clone()
    }
}

impl HasMediaItemId for StoredItem {
    open spec fn media_item_id(&self) -> MediaItemId {
        self.media_item.id
    }

    fn get_media_item_id(&self) -> (id: MediaItemId) {
        self.media_item.id.clone()
    }
}

/// The identifiers of `items`, one for one.
pub fn extract_media_item_ids<T: HasMediaItemId>(items: &Vec<T>) -> (ids: Vec<MediaItemId>)
    ensures
        ids@.len() == items@.len(),
        forall|i: int| 0 <= i < ids@.len() ==> #[trigger] ids@[i] == items@[i].media_item_id(),
{
    let mut ids: Vec<MediaItemId> = Vec::new();
    let mut i: usize = 0;
    while i < items.len()
        invariant
            0 <= i <= items.len(),
            ids@.len() == i,
            forall|j: int| 0 <= j < i ==> #[trigger] ids@[j] == items@[j].media_item_id(),
        decreases items.len() - i,
    {
        ids.push(items[i].get_media_item_id());
        i += 1;
    }
    ids
}

impl StoredItem {
    /// A record for an item that is seen for the first time.
    pub fn new(media_item: MediaItem) -> (item: StoredItem)
        ensures
            item == (StoredItem { media_item, app_data: None, alt_filename: None }),
    {
        StoredItem { media_item, app_data: None, alt_filename: None }
    }

    /// The file name that the item goes by on disk: the one given to it to
    /// break a collision, else the one that the remote side suggests.
    pub open spec fn filename_string(&self) -> FileName {
        match self.alt_filename {
            Some(name) => name,
            None => self.media_item.filename,
        }
    }

    /// The characters of the file name that the item goes by on disk.
    pub open spec fn filename(&self) -> Seq<char> {
        self.filename_string()@
    }

    /// The record flagged as fetched at `now`.
    pub open spec fn flagged(&self, now: Timestamp) -> StoredItem {
        StoredItem {
            app_data: Some(AppData { download_info: Some(DownloadInfo { downloaded_at: now }) }),
            ..*self
        }
    }

    /// The record without a flag.
    pub open spec fn unflagged(&self) -> StoredItem {
        StoredItem { app_data: None, ..*self }
    }

    /// Whether the item counts as fetched.
    pub open spec fn downloaded(&self) -> bool {
        self.app_data is Some && self.app_data->0.download_info is Some
    }

    /// The file name that the item goes by on disk.
    pub fn get_filename(&self) -> (name: String)
        ensures
            name == self.filename_string(),
    {
        match &self.alt_filename {
            Some(alt_filename) => alt_filename.clone(),
            None => self.media_item.filename.clone(),
        }
    }

    /// Whether the item counts as fetched.
    pub fn is_marked_downloaded(&self) -> (marked: bool)
        ensures
            marked == self.downloaded(),
    {
        match &self.app_data {
            Some(app_data) => app_data.download_info.is_some(),
            None => false,
        }
    }

    /// Notes that the item was fetched at `now`.
    pub fn mark_downloaded_at(&mut self, now: Timestamp)
        ensures
            *final(self) == old(self).flagged(now),
    {
        self.app_data = Some(AppData { download_info: Some(DownloadInfo { downloaded_at: now }) });
    }

    /// Notes that the item was fetched just now, by the system clock.
    pub fn mark_downloaded(&mut self)
        ensures
            exists|now: Timestamp| *final(self) == #[trigger] old(self).flagged(now),
    {
        let now = Timestamp::now();
        self.mark_downloaded_at(now);
    }

    /// Forgets that the item was ever fetched.
    pub fn unmark_downloaded(&mut self)
        ensures
            *final(self) == old(self).unflagged(),
    {
        self.app_data = None;
    }
}

impl MediaItem {
    /// The text that stands for a missing width or height in an address.
    pub open spec fn dimension(side: Option<String>) -> Seq<char> {
        match side {
            Some(text) => text@,
            None => Seq::empty(),
        }
    }

    /// The address from which a photo's bytes are fetched.
    pub open spec fn photo_url(&self) -> Seq<char> {
        self.base_url@ + "=w"@ + Self::dimension(self.media_metadata.width) + "-h"@
            + Self::dimension(self.media_metadata.height)
    }
}

impl DownloadUrl for MediaItem {
    open spec fn download_url(&self) -> Option<Seq<char>> {
        if self.media_metadata.photo is Some {
            Some(self.photo_url())
        } else {
            None
        }
    }

    fn create_download_url(&self) -> (url: CustomResult<String>) {
        if self.media_metadata.photo.is_some() {
            let mut url = self.base_url.clone();
            url.append("=w");
            match &self.media_metadata.width {
                Some(w) => url.append(w.as_str()),
                None => {},
            }
            url.append("-h");
            match &self.media_metadata.height {
                Some(h) => url.append(h.as_str()),
                None => {},
            }
            Ok(url)
        } else {
            Err(CustomError::UnsupportedMediaKind)
        }
    }
}

} // verus!
