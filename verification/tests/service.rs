use rs_google_photos_sync::service::{
    install_service, uninstall_service, ServiceStartType, ServiceStep,
};

#[test]
fn the_service_is_described_as_it_is_registered() {
    let description = install_service();
    assert_eq!(description.name, "rs_google_photos_sync");
    assert_eq!(description.display_name, "Sync-down Google Photos service");
    assert_eq!(description.executable_file, "rs_google_photos_sync.exe");
    assert_eq!(description.launch_arguments, vec!["--winservice".to_string()]);
    assert_eq!(description.start_type, ServiceStartType::AutoStart);
}

#[test]
fn a_running_service_is_stopped_before_it_is_deleted() {
    let removal = uninstall_service(false);
    assert_eq!(removal.name, "rs_google_photos_sync");
    assert_eq!(
        removal.steps,
        vec![ServiceStep::Stop, ServiceStep::Wait { seconds: 1 }, ServiceStep::Delete]
    );
}

#[test]
fn a_service_at_rest_is_deleted_at_once() {
    let removal = uninstall_service(true);
    assert_eq!(removal.name, "rs_google_photos_sync");
    assert_eq!(removal.steps, vec![ServiceStep::Delete]);
}
