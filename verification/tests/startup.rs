use native_tor::startup::{
    directory_path, owner_only, Directory, Startup, StartupAction, StartupError, StartupEvent,
    StartupPhase, DIRECTORY_MODE,
};

#[test]
fn directories_lie_below_the_cache_root() {
    assert_eq!(directory_path("/tmp/x", Directory::Data), "/tmp/x/arti-data");
    assert_eq!(directory_path("/tmp/x", Directory::Cache), "/tmp/x/arti-cache");
    assert_eq!(directory_path("", Directory::Data), "/arti-data");
    assert_eq!(directory_path("/data/user/0/app/cache/", Directory::Cache), "/data/user/0/app/cache//arti-cache");
}

#[test]
fn directory_mode_is_0700() {
    assert_eq!(DIRECTORY_MODE, 0o700);
    assert!(owner_only(DIRECTORY_MODE));
}

#[test]
fn owner_only_looks_at_the_permission_bits() {
    assert!(owner_only(0o700));
    // a directory as the file system reports it, with its type bits
    assert!(owner_only(0o040700));
    assert!(!owner_only(0o755));
    assert!(!owner_only(0o750));
    assert!(!owner_only(0o701));
    assert!(!owner_only(0o600));
    assert!(!owner_only(0o500));
    assert!(!owner_only(0o777));
    assert!(!owner_only(0));
}

#[test]
fn startup_goes_through_its_steps_in_order() {
    let (mut s, first) = Startup::begin();
    assert_eq!(first, StartupAction::CreateDirectory(Directory::Data));
    assert_eq!(s.phase(), StartupPhase::DataDirectory);
    assert_eq!(
        s.step(StartupEvent::DirectoryReady),
        StartupAction::CreateDirectory(Directory::Cache)
    );
    assert_eq!(s.phase(), StartupPhase::CacheDirectory);
    assert_eq!(s.step(StartupEvent::DirectoryReady), StartupAction::Bootstrap);
    assert_eq!(s.phase(), StartupPhase::Bootstrap);
    assert_eq!(s.step(StartupEvent::Bootstrapped), StartupAction::Serve);
    assert_eq!(s.phase(), StartupPhase::Ready);
    assert_eq!(s.step(StartupEvent::Bootstrapped), StartupAction::Ignore);
    assert_eq!(s.step(StartupEvent::DirectoryFailed), StartupAction::Ignore);
    assert_eq!(s.phase(), StartupPhase::Ready);
}

#[test]
fn directory_failure_is_fatal() {
    let (mut s, _) = Startup::begin();
    assert_eq!(
        s.step(StartupEvent::DirectoryFailed),
        StartupAction::Abort(StartupError::Directory)
    );
    assert_eq!(s.phase(), StartupPhase::Failed);
    assert_eq!(s.step(StartupEvent::DirectoryReady), StartupAction::Ignore);
    assert_eq!(s.step(StartupEvent::Bootstrapped), StartupAction::Ignore);

    let (mut s, _) = Startup::begin();
    s.step(StartupEvent::DirectoryReady);
    assert_eq!(
        s.step(StartupEvent::DirectoryFailed),
        StartupAction::Abort(StartupError::Directory)
    );
    assert_eq!(s.phase(), StartupPhase::Failed);
}

#[test]
fn bootstrap_failure_is_fatal() {
    let (mut s, _) = Startup::begin();
    s.step(StartupEvent::DirectoryReady);
    s.step(StartupEvent::DirectoryReady);
    assert_eq!(
        s.step(StartupEvent::BootstrapFailed),
        StartupAction::Abort(StartupError::Bootstrap)
    );
    assert_eq!(s.phase(), StartupPhase::Failed);
    assert_eq!(s.step(StartupEvent::Bootstrapped), StartupAction::Ignore);
}

#[test]
fn client_is_not_bootstrapped_before_the_directories_are_ready() {
    let (mut s, _) = Startup::begin();
    assert_eq!(s.step(StartupEvent::Bootstrapped), StartupAction::Ignore);
    assert_eq!(s.step(StartupEvent::BootstrapFailed), StartupAction::Ignore);
    assert_eq!(s.phase(), StartupPhase::DataDirectory);
    s.step(StartupEvent::DirectoryReady);
    assert_eq!(s.step(StartupEvent::Bootstrapped), StartupAction::Ignore);
    assert_eq!(s.phase(), StartupPhase::CacheDirectory);
}
