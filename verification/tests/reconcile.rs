use rs_google_photos_sync::app_storage::{contains_name, AppStorage};
use rs_google_photos_sync::catalog::{
    AppData, DownloadInfo, MediaItem, MediaMetaData, Photo, StoredItem, StoredItemStore,
};
use rs_google_photos_sync::clock::Timestamp;
use rs_google_photos_sync::config::FixMarkDownloadedInfo;
use rs_google_photos_sync::my_db::KeyValueStore;
use rs_google_photos_sync::sync::{mark_unmark_downloaded_photos_in_fs, App};

fn at(millis: i64) -> Timestamp {
    Timestamp { millis }
}

fn photo(id: &str, filename: &str) -> MediaItem {
    MediaItem {
        id: id.to_string(),
        base_url: format!("https://lh3.example/{}", id),
        filename: filename.to_string(),
        media_metadata: MediaMetaData {
            creation_time: at(1_557_051_072_000),
            width: Some("10".to_string()),
            height: Some("20".to_string()),
            photo: Some(Photo {}),
            video: None,
        },
    }
}

fn record(id: &str, filename: &str, alt: Option<&str>, downloaded: bool) -> StoredItem {
    StoredItem {
        media_item: photo(id, filename),
        app_data: if downloaded {
            Some(AppData { download_info: Some(DownloadInfo { downloaded_at: at(1) }) })
        } else {
            None
        },
        alt_filename: alt.map(|name| name.to_string()),
    }
}

fn catalog(records: Vec<StoredItem>) -> StoredItemStore {
    let mut store: StoredItemStore = KeyValueStore::new_at("catalog.json", at(0));
    for item in records {
        let id = item.media_item.id.clone();
        store.set_at(&id, item, at(0));
    }
    store
}

fn names(list: &[&str]) -> Vec<String> {
    list.iter().map(|name| name.to_string()).collect()
}

#[test]
fn a_file_on_disk_under_the_alternative_name_marks_its_entry() {
    let store = catalog(vec![record("A", "img.jpg", Some("0_img.jpg"), false)]);
    let partition = store.partition_by_marked_download(&names(&["0_img.jpg"]));
    assert_eq!(partition.mark_downloaded, names(&["A"]));
    assert_eq!(partition.unmark_downloaded, Vec::<String>::new());
}

#[test]
fn the_base_name_does_not_count_when_an_alternative_name_is_set() {
    let store = catalog(vec![record("A", "img.jpg", Some("0_img.jpg"), false)]);
    let partition = store.partition_by_marked_download(&names(&["img.jpg"]));
    assert_eq!(partition.mark_downloaded, Vec::<String>::new());
    assert_eq!(partition.unmark_downloaded, Vec::<String>::new());
}

#[test]
fn a_flagged_entry_without_its_file_is_unmarked() {
    let store = catalog(vec![
        record("A", "a.jpg", None, true),
        record("B", "b.jpg", None, true),
        record("C", "c.jpg", None, false),
        record("D", "d.jpg", None, false),
    ]);
    let partition = store.partition_by_marked_download(&names(&["b.jpg", "c.jpg", "stray.txt"]));
    assert_eq!(partition.mark_downloaded, names(&["C"]));
    assert_eq!(partition.unmark_downloaded, names(&["A"]));
}

#[test]
fn the_two_lists_of_a_partition_share_no_identifier() {
    let store = catalog(vec![
        record("A", "same.jpg", None, true),
        record("B", "same.jpg", None, false),
        record("C", "gone.jpg", None, true),
        record("D", "new.jpg", None, false),
        record("E", "x.jpg", Some("new.jpg"), false),
    ]);
    let partition = store.partition_by_marked_download(&names(&["same.jpg", "new.jpg"]));
    assert_eq!(partition.mark_downloaded, names(&["B", "D", "E"]));
    assert_eq!(partition.unmark_downloaded, names(&["C"]));
    for id in &partition.mark_downloaded {
        assert!(!partition.unmark_downloaded.contains(id));
    }
}

#[test]
fn an_empty_catalog_or_an_empty_disk_gives_what_follows() {
    let empty = catalog(vec![]);
    let partition = empty.partition_by_marked_download(&names(&["a.jpg"]));
    assert!(partition.mark_downloaded.is_empty() && partition.unmark_downloaded.is_empty());
    let store = catalog(vec![record("A", "a.jpg", None, true), record("B", "b.jpg", None, false)]);
    let partition = store.partition_by_marked_download(&Vec::new());
    assert_eq!(partition.mark_downloaded, Vec::<String>::new());
    assert_eq!(partition.unmark_downloaded, names(&["A"]));
}

#[test]
fn selection_takes_undownloaded_records_only_up_to_the_limit() {
    let store = catalog(vec![
        record("A", "a.jpg", None, true),
        record("B", "b.jpg", None, false),
        record("C", "c.jpg", None, false),
        record("D", "d.jpg", None, true),
        record("E", "e.jpg", None, false),
    ]);
    let two = store.select_files_for_download(2);
    assert_eq!(two, vec![record("B", "b.jpg", None, false), record("C", "c.jpg", None, false)]);
    let all = store.select_files_for_download(3);
    assert_eq!(all.len(), 3);
    assert_eq!(all[2], record("E", "e.jpg", None, false));
    assert_eq!(store.select_files_for_download(100).len(), 3);
    assert_eq!(store.select_files_for_download(usize::MAX).len(), 3);
    assert!(store.select_files_for_download(100).iter().all(|item| !item.is_marked_downloaded()));
}

#[test]
fn selection_with_limit_zero_is_empty() {
    let store = catalog(vec![record("B", "b.jpg", None, false)]);
    assert_eq!(store.select_files_for_download(0), Vec::<StoredItem>::new());
    let done = catalog(vec![record("A", "a.jpg", None, true)]);
    assert_eq!(done.select_files_for_download(5), Vec::<StoredItem>::new());
}

#[test]
fn marking_flags_the_named_records_and_no_others() {
    let mut store = catalog(vec![
        record("A", "a.jpg", None, false),
        record("B", "b.jpg", Some("0_b.jpg"), false),
        record("C", "c.jpg", None, true),
    ]);
    store.mark_downloaded_at(&names(&["B", "C", "nobody"]), at(900));
    assert_eq!(store.get(&"A".to_string()), Some(&record("A", "a.jpg", None, false)));
    let b = store.get(&"B".to_string()).unwrap();
    assert_eq!(
        b.app_data,
        Some(AppData { download_info: Some(DownloadInfo { downloaded_at: at(900) }) })
    );
    assert_eq!(b.alt_filename, Some("0_b.jpg".to_string()));
    let c = store.get(&"C".to_string()).unwrap();
    assert_eq!(
        c.app_data,
        Some(AppData { download_info: Some(DownloadInfo { downloaded_at: at(900) }) })
    );
    assert_eq!(store.len(), 3);
}

#[test]
fn marking_by_the_clock_flags_the_named_records() {
    let mut store = catalog(vec![record("A", "a.jpg", None, false), record("B", "b.jpg", None, false)]);
    store.mark_downloaded(&names(&["A"]));
    assert!(store.get(&"A".to_string()).unwrap().is_marked_downloaded());
    assert!(!store.get(&"B".to_string()).unwrap().is_marked_downloaded());
}

#[test]
fn unmarking_takes_the_flag_from_the_named_records() {
    let mut store = catalog(vec![record("A", "a.jpg", None, true), record("B", "b.jpg", None, true)]);
    store.unmark_downloaded(&names(&["B"]));
    assert!(store.get(&"A".to_string()).unwrap().is_marked_downloaded());
    assert_eq!(store.get(&"B".to_string()), Some(&record("B", "b.jpg", None, false)));
}

#[test]
fn the_table_by_file_name_holds_the_later_of_two_entries_of_one_name() {
    let store = catalog(vec![
        record("A", "img.jpg", None, false),
        record("B", "b.jpg", Some("1_b.jpg"), false),
        record("C", "img.jpg", None, false),
    ]);
    let table = store.get_media_item_id_by_file_name();
    assert_eq!(
        table,
        vec![("img.jpg".to_string(), "C".to_string()), ("1_b.jpg".to_string(), "B".to_string())]
    );
}

#[test]
fn reconciling_applies_only_the_directions_that_are_switched_on() {
    let records = || {
        vec![
            record("A", "a.jpg", None, true),
            record("B", "b.jpg", None, false),
            record("C", "c.jpg", None, false),
        ]
    };
    let disk = names(&["b.jpg"]);

    let mut both = App::new(catalog(records()));
    let switches = FixMarkDownloadedInfo { mark_downloaded: true, unmark_downloaded: true };
    let partition = mark_unmark_downloaded_photos_in_fs(&mut both, &disk, &switches, at(50));
    assert_eq!(partition.mark_downloaded, names(&["B"]));
    assert_eq!(partition.unmark_downloaded, names(&["A"]));
    assert!(!both.storage.get(&"A".to_string()).unwrap().is_marked_downloaded());
    assert_eq!(
        both.storage.get(&"B".to_string()).unwrap().app_data,
        Some(AppData { download_info: Some(DownloadInfo { downloaded_at: at(50) }) })
    );
    assert!(!both.storage.get(&"C".to_string()).unwrap().is_marked_downloaded());

    let mut mark_only = App::new(catalog(records()));
    let switches = FixMarkDownloadedInfo { mark_downloaded: true, unmark_downloaded: false };
    mark_unmark_downloaded_photos_in_fs(&mut mark_only, &disk, &switches, at(50));
    assert!(mark_only.storage.get(&"A".to_string()).unwrap().is_marked_downloaded());
    assert!(mark_only.storage.get(&"B".to_string()).unwrap().is_marked_downloaded());

    let mut unmark_only = App::new(catalog(records()));
    let switches = FixMarkDownloadedInfo { mark_downloaded: false, unmark_downloaded: true };
    mark_unmark_downloaded_photos_in_fs(&mut unmark_only, &disk, &switches, at(50));
    assert!(!unmark_only.storage.get(&"A".to_string()).unwrap().is_marked_downloaded());
    assert!(!unmark_only.storage.get(&"B".to_string()).unwrap().is_marked_downloaded());

    let mut neither = App::new(catalog(records()));
    let switches = FixMarkDownloadedInfo { mark_downloaded: false, unmark_downloaded: false };
    let partition = mark_unmark_downloaded_photos_in_fs(&mut neither, &disk, &switches, at(50));
    assert_eq!(partition.mark_downloaded, names(&["B"]));
    assert_eq!(neither.storage, catalog(records()));
}

#[test]
fn a_name_is_found_among_names_by_its_characters() {
    let list = names(&["a.jpg", "b.jpg"]);
    assert!(contains_name(&list, &"b.jpg".to_string()));
    assert!(!contains_name(&list, &"B.jpg".to_string()));
    assert!(!contains_name(&Vec::new(), &"a.jpg".to_string()));
}
