use rs_google_photos_sync::catalog::{
    extract_media_item_ids, AppData, DownloadInfo, HasMediaItemId, MediaItem, MediaMetaData, Photo,
    StoredItem, Video,
};
use rs_google_photos_sync::clock::Timestamp;
use rs_google_photos_sync::downloader::DownloadUrl;
use rs_google_photos_sync::error::CustomError;

fn photo(id: &str, filename: &str) -> MediaItem {
    MediaItem {
        id: id.to_string(),
        base_url: format!("https://lh3.example/{}", id),
        filename: filename.to_string(),
        media_metadata: MediaMetaData {
            creation_time: Timestamp { millis: 1_557_051_072_000 },
            width: Some("4032".to_string()),
            height: Some("3024".to_string()),
            photo: Some(Photo {}),
            video: None,
        },
    }
}

fn video(id: &str, filename: &str) -> MediaItem {
    let mut item = photo(id, filename);
    item.media_metadata.photo = None;
    item.media_metadata.video = Some(Video {});
    item
}

#[test]
fn a_new_record_has_no_notes() {
    let item = StoredItem::new(photo("A", "img.jpg"));
    assert_eq!(item.media_item, photo("A", "img.jpg"));
    assert_eq!(item.app_data, None);
    assert_eq!(item.alt_filename, None);
    assert!(!item.is_marked_downloaded());
}

#[test]
fn the_file_name_is_the_alternative_one_where_there_is_one() {
    let mut item = StoredItem::new(photo("A", "img.jpg"));
    assert_eq!(item.get_filename(), "img.jpg");
    item.alt_filename = Some("0_img.jpg".to_string());
    assert_eq!(item.get_filename(), "0_img.jpg");
}

#[test]
fn downloaded_means_app_data_with_download_info() {
    let mut item = StoredItem::new(photo("A", "img.jpg"));
    item.app_data = Some(AppData { download_info: None });
    assert!(!item.is_marked_downloaded());
    item.app_data =
        Some(AppData { download_info: Some(DownloadInfo { downloaded_at: Timestamp { millis: 5 } }) });
    assert!(item.is_marked_downloaded());
}

#[test]
fn marking_and_unmarking_change_the_flag_only() {
    let mut item = StoredItem::new(photo("A", "img.jpg"));
    item.alt_filename = Some("1_img.jpg".to_string());
    item.mark_downloaded_at(Timestamp { millis: 77 });
    assert_eq!(
        item.app_data,
        Some(AppData { download_info: Some(DownloadInfo { downloaded_at: Timestamp { millis: 77 } }) })
    );
    assert_eq!(item.media_item, photo("A", "img.jpg"));
    assert_eq!(item.alt_filename, Some("1_img.jpg".to_string()));
    item.unmark_downloaded();
    assert_eq!(item.app_data, None);
    assert_eq!(item.alt_filename, Some("1_img.jpg".to_string()));
    item.mark_downloaded();
    assert!(item.is_marked_downloaded());
    assert_eq!(item.media_item, photo("A", "img.jpg"));
}

#[test]
fn a_clone_is_equal_and_independent() {
    let mut item = StoredItem::new(photo("A", "img.jpg"));
    item.alt_filename = Some("0_img.jpg".to_string());
    let mut copy = item.clone();
    assert_eq!(copy, item);
    copy.media_item.base_url.push('x');
    assert_ne!(copy, item);
}

#[test]
fn identifiers_are_read_off_items_and_records() {
    let items = vec![photo("A", "a.jpg"), video("B", "b.mp4")];
    assert_eq!(extract_media_item_ids(&items), vec!["A".to_string(), "B".to_string()]);
    let records = vec![StoredItem::new(photo("C", "c.jpg"))];
    assert_eq!(extract_media_item_ids(&records), vec!["C".to_string()]);
    assert_eq!(records[0].get_media_item_id(), "C");
    assert_eq!(extract_media_item_ids(&Vec::<MediaItem>::new()), Vec::<String>::new());
}

#[test]
fn the_address_of_a_photo_names_its_width_and_height() {
    let item = photo("A", "img.jpg");
    assert_eq!(item.create_download_url(), Ok("https://lh3.example/A=w4032-h3024".to_string()));
}

#[test]
fn a_missing_width_or_height_leaves_its_place_empty() {
    let mut item = photo("A", "img.jpg");
    item.media_metadata.width = None;
    assert_eq!(item.create_download_url(), Ok("https://lh3.example/A=w-h3024".to_string()));
    item.media_metadata.height = None;
    assert_eq!(item.create_download_url(), Ok("https://lh3.example/A=w-h".to_string()));
}

#[test]
fn a_video_has_no_address() {
    assert_eq!(video("B", "b.mp4").create_download_url(), Err(CustomError::UnsupportedMediaKind));
    let mut neither = photo("C", "c");
    neither.media_metadata.photo = None;
    assert_eq!(neither.create_download_url(), Err(CustomError::UnsupportedMediaKind));
}

#[test]
fn errors_tell_themselves_in_words() {
    assert_eq!(CustomError::Message("disk full".to_string()).description(), "disk full");
    assert_eq!(CustomError::UnsupportedMediaKind.description(), "unsupported media kind");
    assert_eq!(CustomError::InvalidPoolSize.description(), "invalid worker pool size");
}
