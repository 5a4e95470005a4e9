use vstd::prelude::*;

verus! {

/// When the operating system starts a service.
#[derive(Clone, Copy, Debug, PartialEq, Eq, Structural)]
pub enum ServiceStartType {
    /// With the system.
    AutoStart,
    /// When asked to.
    OnDemand,
}

/// What the operating system is told of the service that runs this program.
#[derive(Debug, PartialEq, Eq)]
pub struct ServiceDescription {
    pub name: String,
    pub display_name: String,
    /// The program's file, which lies beside the installer's.
    pub executable_file: String,
    pub launch_arguments: Vec<String>,
    pub start_type: ServiceStartType,
}

/// One step of taking the service out of the system.
#[derive(Clone, Copy, Debug, PartialEq, Eq, Structural)]
pub enum ServiceStep {
    /// Ask the service to stop.
    Stop,
    /// Give it time to do so.
    Wait { seconds: u64 },
    /// Strike it from the system's list.
    Delete,
}

/// The service to take out and the steps to take.
#[derive(Debug, PartialEq, Eq)]
pub struct ServiceRemoval {
    pub name: String,
    pub steps: Vec<ServiceStep>,
}

/// The name under which the system knows the service.
pub open spec fn service_name() -> Seq<char> {
    "rs_google_photos_sync"@
}

/// The steps that take the service out: it is deleted, after it was
/// stopped and given a second where it is not at rest.
pub open spec fn removal_steps(stopped: bool) -> Seq<ServiceStep> {
    if stopped {
        seq![ServiceStep::Delete]
    } else {
        seq![ServiceStep::Stop, ServiceStep::Wait { seconds: 1 }, ServiceStep::Delete]
    }
}

/// The service as it is to be registered: started with the system, in a
/// process of its own, and told by its one argument that it runs as a service.
pub fn install_service() -> (description: ServiceDescription)
    ensures
        description.name@ == service_name(),
        description.display_name@ == "Sync-down Google Photos service"@,
        description.executable_file@ == "rs_google_photos_sync.exe"@,
        description.launch_arguments@.len() == 1,
        description.launch_arguments@[0]@ == "--winservice"@,
        description.start_type == ServiceStartType::AutoStart,
{
    let mut launch_arguments: Vec<String> = Vec::new();
    launch_arguments.push("--winservice".to_owned());
    ServiceDescription {
        name: "rs_google_photos_sync".to_owned(),
        display_name: "Sync-down Google Photos service".to_owned(),
        executable_file: "rs_google_photos_sync.exe".to_owned(),
        launch_arguments,
        start_type: ServiceStartType::AutoStart,
    }
}

/// How the service is taken out of the system, given whether it is at
/// rest.
pub fn uninstall_service(stopped: bool) -> (removal: ServiceRemoval)
    ensures
        removal.name@ == service_name(),
        removal.steps@ == removal_steps(stopped),
{
    let mut steps: Vec<ServiceStep> = Vec::new();
    if !stopped {
        steps.push(ServiceStep::Stop);
        steps.push(ServiceStep::Wait { seconds: 1 });
    }
    steps.push(ServiceStep::Delete);
    assert(steps@ =~= removal_steps(stopped));
    ServiceRemoval { name: "rs_google_photos_sync".to_owned(), steps }
}

} // verus!
