//! What has to be in place before the proxy serves, and in which order.
//!
//! The network client keeps its state in two directories under a cache
//! root, both private to their owner. They are created first, the data
//! directory before the cache directory; only then is the client
//! bootstrapped; only then does serving begin. Whatever fails on the way
//! is fatal.

use vstd::prelude::*;
use vstd::string::*;

verus! {

/// Permission bits of the two directories: read, write and search for the
/// owner, nothing for anyone else.
pub const DIRECTORY_MODE: u32 = 0o700;

/// Why startup was given up.
#[derive(Clone, Copy, Debug, PartialEq, Eq, Structural)]
pub enum StartupError {
    /// The listening address could not be bound.
    Bind,
    /// A directory could not be created or its permissions not be set.
    Directory,
    /// The network client could not be bootstrapped.
    Bootstrap,
}

/// One of the client's two directories.
#[derive(Clone, Copy, Debug, PartialEq, Eq, Structural)]
pub enum Directory {
    /// Where the client keeps its long-lived state.
    Data,
    /// Where the client keeps what it can fetch again.
    Cache,
}

/// Where startup stands.
#[derive(Clone, Copy, Debug, PartialEq, Eq, Structural)]
pub enum StartupPhase {
    /// The data directory is being created.
    DataDirectory,
    /// The cache directory is being created.
    CacheDirectory,
    /// The client is being bootstrapped.
    Bootstrap,
    /// Everything is in place.
    Ready,
    /// Startup was given up.
    Failed,
}

/// How the step that was asked for went.
#[derive(Clone, Copy, Debug, PartialEq, Eq, Structural)]
pub enum StartupEvent {
    /// The directory exists and has the permissions asked for.
    DirectoryReady,
    /// The directory could not be created or set up.
    DirectoryFailed,
    /// The client is bootstrapped.
    Bootstrapped,
    /// The client could not be bootstrapped.
    BootstrapFailed,
}

/// What the caller is to do next.
#[derive(Clone, Copy, Debug, PartialEq, Eq, Structural)]
pub enum StartupAction {
    /// Create this directory with [`DIRECTORY_MODE`] and report.
    CreateDirectory(Directory),
    /// Bootstrap the client on the two directories and report.
    Bootstrap,
    /// Start the listener and launch the onion service.
    Serve,
    /// Give up and hand the error to the caller.
    Abort(StartupError),
    /// Nothing to do.
    Ignore,
}

/// The name of a directory below the cache root, with its leading slash.
pub open spec fn spec_directory_suffix(which: Directory) -> Seq<char> {
    match which {
        Directory::Data => "/arti-data"@,
        Directory::Cache => "/arti-cache"@,
    }
}

/// The path of a directory: the cache root, a slash and the directory's
/// name.
pub open spec fn spec_directory_path(cache_root: Seq<char>, which: Directory) -> Seq<char> {
    cache_root + spec_directory_suffix(which)
}

/// Whether the permission bits of `mode` grant the owner everything and
/// everyone else nothing.
pub open spec fn spec_owner_only(mode: u32) -> bool {
    mode & 0o777 == 0o700
}

/// The transition function of startup.
pub open spec fn spec_startup_step(p: StartupPhase, e: StartupEvent) -> (
    StartupPhase,
    StartupAction,
) {
    match (p, e) {
        (StartupPhase::DataDirectory, StartupEvent::DirectoryReady) => (
            StartupPhase::CacheDirectory,
            StartupAction::CreateDirectory(Directory::Cache),
        ),
        (StartupPhase::CacheDirectory, StartupEvent::DirectoryReady) => (
            StartupPhase::Bootstrap,
            StartupAction::Bootstrap,
        ),
        (StartupPhase::DataDirectory, StartupEvent::DirectoryFailed) | (
            StartupPhase::CacheDirectory,
            StartupEvent::DirectoryFailed,
        ) => (StartupPhase::Failed, StartupAction::Abort(StartupError::Directory)),
        (StartupPhase::Bootstrap, StartupEvent::Bootstrapped) => (
            StartupPhase::Ready,
            StartupAction::Serve,
        ),
        (StartupPhase::Bootstrap, StartupEvent::BootstrapFailed) => (
            StartupPhase::Failed,
            StartupAction::Abort(StartupError::Bootstrap),
        ),
        _ => (p, StartupAction::Ignore),
    }
}

/// The path of one of the client's directories below `cache_root`.
pub fn directory_path(cache_root: &str, which: Directory) -> (path: String)
    ensures
        path@ == spec_directory_path(cache_root@, which),
{
    let mut path = cache_root.to_owned();
    match which {
        Directory::Data => path.append("/arti-data"),
        Directory::Cache => path.append("/arti-cache"),
    }
    path
}

/// Whether the permission bits of `mode` grant the owner everything and
/// everyone else nothing.
pub fn owner_only(mode: u32) -> (b: bool)
    ensures
        b == spec_owner_only(mode),
{
    mode & 0o777 == 0o700
}

/// The order of startup as a state machine.
pub struct Startup {
    phase: StartupPhase,
}

impl View for Startup {
    type V = StartupPhase;

    closed spec fn view(&self) -> StartupPhase {
        self.phase
    }
}

impl Startup {
    /// Begins startup: the first thing to do is to create the data
    /// directory.
    pub fn begin() -> (r: (Startup, StartupAction))
        ensures
            r.0@ == StartupPhase::DataDirectory,
            r.1 == StartupAction::CreateDirectory(Directory::Data),
    {
        (
            Startup { phase: StartupPhase::DataDirectory },
            StartupAction::CreateDirectory(Directory::Data),
        )
    }

    /// Where startup stands.
    pub fn phase(&self) -> (p: StartupPhase)
        ensures
            p == self@,
    {
        self.phase
    }

    /// Takes the outcome of the step that was asked for, moves on and
    /// says what to do next.
    pub fn step(&mut self, event: StartupEvent) -> (action: StartupAction)
        ensures
            (final(self)@, action) == spec_startup_step(old(self)@, event),
    {
        match (self.phase, event) {
            (StartupPhase::DataDirectory, StartupEvent::DirectoryReady) => {
                self.phase = StartupPhase::CacheDirectory;
                StartupAction::CreateDirectory(Directory::Cache)
            },
            (StartupPhase::CacheDirectory, StartupEvent::DirectoryReady) => {
                self.phase = StartupPhase::Bootstrap;
                StartupAction::Bootstrap
            },
            (StartupPhase::DataDirectory, StartupEvent::DirectoryFailed) | (
                StartupPhase::CacheDirectory,
                StartupEvent::DirectoryFailed,
            ) => {
                self.phase = StartupPhase::Failed;
                StartupAction::Abort(StartupError::Directory)
            },
            (StartupPhase::Bootstrap, StartupEvent::Bootstrapped) => {
                self.phase = StartupPhase::Ready;
                StartupAction::Serve
            },
            (StartupPhase::Bootstrap, StartupEvent::BootstrapFailed) => {
                self.phase = StartupPhase::Failed;
                StartupAction::Abort(StartupError::Bootstrap)
            },
            _ => StartupAction::Ignore,
        }
    }
}

/// The phase that startup reaches from `p` on `events`, and the actions
/// asked for on the way, one for each event.
pub open spec fn startup_run(p: StartupPhase, events: Seq<StartupEvent>) -> (
    StartupPhase,
    Seq<StartupAction>,
)
    decreases events.len(),
{
    if events.len() == 0 {
        (p, Seq::empty())
    } else {
        let before = startup_run(p, events.drop_last());
        let last = spec_startup_step(before.0, events.last());
        (last.0, before.1.push(last.1))
    }
}

/// The mode of the directories is owner-only.
pub proof fn directory_mode_is_owner_only()
    ensures
        spec_owner_only(DIRECTORY_MODE),
{
    assert(0o700u32 & 0o777 == 0o700) by (bit_vector);
}

/// The client is bootstrapped only once both directories are ready, and
/// serving begins only once the client is bootstrapped: whatever the
/// events, `Bootstrap` is asked for only on `DirectoryReady` for the cache
/// directory, which is asked for only on `DirectoryReady` for the data
/// directory, and `Serve` only on `Bootstrapped` after `Bootstrap`.
pub proof fn startup_order(p: StartupPhase, e: StartupEvent)
    ensures
        spec_startup_step(p, e).1 == StartupAction::CreateDirectory(Directory::Cache) ==> p
            == StartupPhase::DataDirectory && e == StartupEvent::DirectoryReady,
        spec_startup_step(p, e).1 == StartupAction::Bootstrap ==> p == StartupPhase::CacheDirectory
            && e == StartupEvent::DirectoryReady,
        spec_startup_step(p, e).1 == StartupAction::Serve ==> p == StartupPhase::Bootstrap && e
            == StartupEvent::Bootstrapped,
        spec_startup_step(p, e).1 != StartupAction::CreateDirectory(Directory::Data),
{
}

/// How often `actions` ask for `a`.
pub open spec fn occurrences(actions: Seq<StartupAction>, a: StartupAction) -> nat
    decreases actions.len(),
{
    if actions.len() == 0 {
        0
    } else {
        occurrences(actions.drop_last(), a) + if actions.last() == a {
            1nat
        } else {
            0nat
        }
    }
}

/// In every run from the beginning each step is asked for at most once
/// and none before the one that it rests on; startup is ready exactly
/// when serving was asked for, and has failed exactly when it was given
/// up, which excludes serving.
pub proof fn startup_keeps_order(events: Seq<StartupEvent>)
    ensures
        ({
            let (p, actions) = startup_run(StartupPhase::DataDirectory, events);
            let cache = occurrences(actions, StartupAction::CreateDirectory(Directory::Cache));
            let bootstrap = occurrences(actions, StartupAction::Bootstrap);
            let serve = occurrences(actions, StartupAction::Serve);
            let aborts = occurrences(actions, StartupAction::Abort(StartupError::Directory))
                + occurrences(actions, StartupAction::Abort(StartupError::Bootstrap));
            &&& serve <= bootstrap <= cache <= 1
            &&& p == StartupPhase::Ready <==> serve == 1
            &&& p == StartupPhase::Failed <==> aborts == 1
            &&& aborts + serve <= 1
            &&& p == StartupPhase::DataDirectory <==> cache + aborts == 0
            &&& p == StartupPhase::CacheDirectory <==> cache == 1 && bootstrap + aborts == 0
            &&& p == StartupPhase::Bootstrap <==> bootstrap == 1 && serve + aborts == 0
            &&& occurrences(actions, StartupAction::Abort(StartupError::Bind)) == 0
            &&& occurrences(actions, StartupAction::CreateDirectory(Directory::Data)) == 0
        }),
    decreases events.len(),
{
    if events.len() > 0 {
        let front = events.drop_last();
        startup_keeps_order(front);
        let before = startup_run(StartupPhase::DataDirectory, front);
        let last = spec_startup_step(before.0, events.last());
        assert(before.1.push(last.1).drop_last() == before.1);
    }
}

/// A failure is fatal: once startup has failed, it stays failed and asks
/// for nothing more.
pub proof fn failure_is_fatal(events: Seq<StartupEvent>)
    ensures
        startup_run(StartupPhase::Failed, events).0 == StartupPhase::Failed,
        startup_run(StartupPhase::Failed, events).1.len() == events.len(),
        forall|i: int|
            0 <= i < events.len() ==> #[trigger] startup_run(StartupPhase::Failed, events).1[i]
                == StartupAction::Ignore,
    decreases events.len(),
{
    if events.len() > 0 {
        failure_is_fatal(events.drop_last());
    }
}

} // verus!
