//! The supervisor's decisions.
//!
//! The supervisor spawns the filesystem server, waits for its readiness
//! signal, runs the publisher, publishes the per-target binds, and tears
//! everything down on patch-set change, server exit or shutdown.  The
//! process plumbing lives outside the library; here are the two pieces that
//! decide: matching the server's directory entries to patch records by the
//! path digest, and the step function from supervisor state and event to the
//! next state and the actions to perform.

use vstd::prelude::*;

use crate::bytes::bytes_eq;
use crate::configs::PatchedFile;
use crate::fuse::before_first;
use crate::fuse::FsError;
use crate::hash::hex_of;
use crate::hash::md5_of;
use crate::mount::cleanup_model;

verus! {

/// The directory entry named `name` serves the patch of target `path`: the
/// prefix before the first `:` is the path's digest.
pub open spec fn name_matches(name: Seq<u8>, path: Seq<u8>) -> bool {
    before_first(name, 58) == hex_of(md5_of(path))
}

/// The last directory entry serving `path`, scanning from the end — the one
/// a digest-keyed map filled front to back would retain.
pub open spec fn last_match(names: Seq<Seq<u8>>, path: Seq<u8>) -> Option<int>
    decreases names.len(),
{
    if names.len() == 0 {
        None
    } else if name_matches(names.last(), path) {
        Some(names.len() - 1)
    } else {
        last_match(names.drop_last(), path)
    }
}

/// When `j` matches and nothing after it does, the last match is `j`.
proof fn lemma_last_match_hit(names: Seq<Seq<u8>>, path: Seq<u8>, j: int)
    requires
        0 <= j < names.len(),
        name_matches(names[j], path),
        forall|k: int| j < k < names.len() ==> !name_matches(#[trigger] names[k], path),
    ensures
        last_match(names, path) == Some(j),
    decreases names.len(),
{
    if j == names.len() - 1 {
    } else {
        lemma_last_match_hit(names.drop_last(), path, j);
    }
}

/// When nothing matches, there is no last match.
proof fn lemma_last_match_none(names: Seq<Seq<u8>>, path: Seq<u8>)
    requires
        forall|k: int| 0 <= k < names.len() ==> !name_matches(#[trigger] names[k], path),
    ensures
        last_match(names, path) is None,
    decreases names.len(),
{
    if names.len() > 0 {
        lemma_last_match_none(names.drop_last(), path);
    }
}

/// Matches each patch record to the directory entry that serves it: the
/// entry whose digest prefix equals the record's path digest, the last such
/// entry when several collide.  A record with no serving entry fails the
/// whole pass.
pub fn match_sources(dir_names: &Vec<Vec<u8>>, patches: &Vec<PatchedFile>) -> (r: Result<
    Vec<Vec<u8>>,
    FsError,
>)
    ensures
        match r {
            Ok(v) => v.len() == patches.len() && forall|i: int|
                0 <= i < patches@.len() ==> (#[trigger] last_match(
                    dir_names.deep_view(),
                    patches@[i].path@,
                ) matches Some(j) && v.deep_view()[i] == dir_names.deep_view()[j]),
            Err(e) => e == FsError::NotFound && exists|i: int|
                0 <= i < patches@.len() && #[trigger] last_match(
                    dir_names.deep_view(),
                    patches@[i].path@,
                ) is None,
        },
{
    let mut out: Vec<Vec<u8>> = Vec::new();
    let n = patches.len();
    let mut i: usize = 0;
    while i < n
        invariant
            i <= n,
            n == patches@.len(),
            out.len() == i,
            forall|p: int|
                0 <= p < i ==> (#[trigger] last_match(dir_names.deep_view(), patches@[p].path@)
                    matches Some(j) && out.deep_view()[p] == dir_names.deep_view()[j]),
        decreases n - i,
    {
        let hash = <Vec<u8> as crate::hash::Hash>::hash(&patches[i].path);
        let m = dir_names.len();
        let mut k: usize = m;
        let ghost names = dir_names.deep_view();
        let mut found = false;
        while k > 0 && !found
            invariant
                k <= m,
                m == dir_names@.len(),
                names == dir_names.deep_view(),
                hash@ == hex_of(md5_of(patches@[i as int].path@)),
                i < n == patches@.len(),
                !found ==> forall|q: int|
                    k <= q < m ==> !name_matches(#[trigger] names[q], patches@[i as int].path@),
                found ==> (k < m && name_matches(names[k as int], patches@[i as int].path@)
                    && forall|q: int|
                    k < q < m ==> !name_matches(#[trigger] names[q], patches@[i as int].path@)),
            decreases k + if found {
                0int
            } else {
                1int
            },
        {
            proof {
                assert(names[k - 1] =~= dir_names@[k - 1]@);
            }
            let prefix = crate::fuse::before_first_byte(&dir_names[k - 1], 58);
            if bytes_eq(&prefix, &hash) {
                found = true;
                k = k - 1;
            } else {
                k = k - 1;
            }
        }
        if found {
            proof {
                lemma_last_match_hit(names, patches@[i as int].path@, k as int);
            }
            let ghost old_out = out.deep_view();
            let picked = crate::bytes::clone_bytes(&dir_names[k]);
            out.push(picked);
            proof {
                assert(out.deep_view() =~~= old_out.push(names[k as int]));
            }
        } else {
            proof {
                lemma_last_match_none(names, patches@[i as int].path@);
            }
            return Err(FsError::NotFound);
        }
        i = i + 1;
    }
    Ok(out)
}

/// Where the supervisor stands in one iteration of its loop.
#[derive(Debug, Clone, Copy, PartialEq, Eq, Structural)]
pub enum DaemonPhase {
    /// The filesystem server is spawned and has not signalled readiness.
    AwaitReady,
    /// The publisher child is running.
    Publishing,
    /// The per-target binds are published; the overlay is live.
    Serving,
    /// The iteration was torn down; waiting out the restart delay.
    Cooldown,
    /// The supervisor has shut down.
    Exited,
}

/// What the supervisor observes while it waits.
#[derive(Debug, Clone, Copy, PartialEq, Eq, Structural)]
pub enum DaemonEvent {
    /// The filesystem server signalled readiness.
    FuseReady,
    /// The publisher child exited, successfully or not.
    PublisherExited { ok: bool },
    /// The filesystem server exited, for any reason.
    FuseExited,
    /// The watched configuration file changed.
    ConfigChanged,
    /// The restart delay elapsed.
    CooldownElapsed,
    /// An interrupt or termination signal arrived.
    Shutdown,
}

/// What the supervisor does in response, in order.
#[derive(Debug, Clone, Copy, PartialEq, Eq, Structural)]
pub enum DaemonAction {
    /// Spawn the filesystem server child.
    SpawnFuse,
    /// Spawn the publisher child with the server's pid.
    SpawnPublisher,
    /// Bind each synthetic entry onto its real target path.
    PublishProxies,
    /// Terminate the filesystem server child.
    KillFuse,
    /// Detach the per-target binds.
    RestoreProxies,
    /// Detach every mount sourced by the application.
    RunCleanup,
    /// Wait out the restart delay.
    Sleep,
    /// Leave the supervisory loop.
    Exit,
}

/// The supervisor's first move: purge stale mounts of a previous instance,
/// then spawn the filesystem server.
pub open spec fn daemon_init_spec() -> (DaemonPhase, Seq<DaemonAction>) {
    (DaemonPhase::AwaitReady, seq![DaemonAction::RunCleanup, DaemonAction::SpawnFuse])
}

/// The transition table of the supervisory loop.  Readiness lets the
/// publisher run; only a successful publisher exit publishes the binds; any
/// teardown ends in cleanup; shutdown always exits through cleanup.
pub open spec fn daemon_step_spec(phase: DaemonPhase, ev: DaemonEvent) -> (
    DaemonPhase,
    Seq<DaemonAction>,
) {
    match (phase, ev) {
        (DaemonPhase::AwaitReady, DaemonEvent::FuseReady) => (
            DaemonPhase::Publishing,
            seq![DaemonAction::SpawnPublisher],
        ),
        (DaemonPhase::AwaitReady, DaemonEvent::FuseExited) => (
            DaemonPhase::Cooldown,
            seq![DaemonAction::RunCleanup, DaemonAction::Sleep],
        ),
        (DaemonPhase::AwaitReady, DaemonEvent::ConfigChanged) => (
            DaemonPhase::Cooldown,
            seq![DaemonAction::KillFuse, DaemonAction::RunCleanup, DaemonAction::Sleep],
        ),
        (DaemonPhase::Publishing, DaemonEvent::PublisherExited { ok: true }) => (
            DaemonPhase::Serving,
            seq![DaemonAction::PublishProxies],
        ),
        (DaemonPhase::Publishing, DaemonEvent::PublisherExited { ok: false }) => (
            DaemonPhase::Cooldown,
            seq![DaemonAction::KillFuse, DaemonAction::RunCleanup, DaemonAction::Sleep],
        ),
        (DaemonPhase::Publishing, DaemonEvent::FuseExited) => (
            DaemonPhase::Cooldown,
            seq![DaemonAction::RunCleanup, DaemonAction::Sleep],
        ),
        (DaemonPhase::Publishing, DaemonEvent::ConfigChanged) => (
            DaemonPhase::Cooldown,
            seq![DaemonAction::KillFuse, DaemonAction::RunCleanup, DaemonAction::Sleep],
        ),
        (DaemonPhase::Serving, DaemonEvent::FuseExited) => (
            DaemonPhase::Cooldown,
            seq![DaemonAction::RestoreProxies, DaemonAction::RunCleanup, DaemonAction::Sleep],
        ),
        (DaemonPhase::Serving, DaemonEvent::ConfigChanged) => (
            DaemonPhase::Cooldown,
            seq![
                DaemonAction::KillFuse,
                DaemonAction::RestoreProxies,
                DaemonAction::RunCleanup,
                DaemonAction::Sleep,
            ],
        ),
        (DaemonPhase::Cooldown, DaemonEvent::CooldownElapsed) => (
            DaemonPhase::AwaitReady,
            seq![DaemonAction::SpawnFuse],
        ),
        (DaemonPhase::AwaitReady, DaemonEvent::Shutdown) => (
            DaemonPhase::Exited,
            seq![DaemonAction::KillFuse, DaemonAction::RunCleanup, DaemonAction::Exit],
        ),
        (DaemonPhase::Publishing, DaemonEvent::Shutdown) => (
            DaemonPhase::Exited,
            seq![DaemonAction::KillFuse, DaemonAction::RunCleanup, DaemonAction::Exit],
        ),
        (DaemonPhase::Serving, DaemonEvent::Shutdown) => (
            DaemonPhase::Exited,
            seq![
                DaemonAction::KillFuse,
                DaemonAction::RestoreProxies,
                DaemonAction::RunCleanup,
                DaemonAction::Exit,
            ],
        ),
        (DaemonPhase::Cooldown, DaemonEvent::Shutdown) => (
            DaemonPhase::Exited,
            seq![DaemonAction::RunCleanup, DaemonAction::Exit],
        ),
        _ => (phase, Seq::empty()),
    }
}

/// The supervisor's first move, executably.
pub fn daemon_init() -> (r: (DaemonPhase, Vec<DaemonAction>))
    ensures
        r.0 == daemon_init_spec().0,
        r.1@ == daemon_init_spec().1,
{
    let mut acts: Vec<DaemonAction> = Vec::new();
    acts.push(DaemonAction::RunCleanup);
    acts.push(DaemonAction::SpawnFuse);
    proof {
        assert(acts@ =~= daemon_init_spec().1);
    }
    (DaemonPhase::AwaitReady, acts)
}

/// One step of the supervisory loop: the next phase and the actions to
/// perform, in order, exactly as the transition table says.
pub fn daemon_step(phase: DaemonPhase, ev: DaemonEvent) -> (r: (DaemonPhase, Vec<DaemonAction>))
    ensures
        r.0 == daemon_step_spec(phase, ev).0,
        r.1@ == daemon_step_spec(phase, ev).1,
{
    let (next, acts): (DaemonPhase, Vec<DaemonAction>) = match (phase, ev) {
        (DaemonPhase::AwaitReady, DaemonEvent::FuseReady) => {
            let mut a: Vec<DaemonAction> = Vec::new();
            a.push(DaemonAction::SpawnPublisher);
            (DaemonPhase::Publishing, a)
        },
        (DaemonPhase::AwaitReady, DaemonEvent::FuseExited) => {
            let mut a: Vec<DaemonAction> = Vec::new();
            a.push(DaemonAction::RunCleanup);
            a.push(DaemonAction::Sleep);
            (DaemonPhase::Cooldown, a)
        },
        (DaemonPhase::AwaitReady, DaemonEvent::ConfigChanged) => {
            let mut a: Vec<DaemonAction> = Vec::new();
            a.push(DaemonAction::KillFuse);
            a.push(DaemonAction::RunCleanup);
            a.push(DaemonAction::Sleep);
            (DaemonPhase::Cooldown, a)
        },
        (DaemonPhase::Publishing, DaemonEvent::PublisherExited { ok }) => {
            if ok {
                let mut a: Vec<DaemonAction> = Vec::new();
                a.push(DaemonAction::PublishProxies);
                (DaemonPhase::Serving, a)
            } else {
                let mut a: Vec<DaemonAction> = Vec::new();
                a.push(DaemonAction::KillFuse);
                a.push(DaemonAction::RunCleanup);
                a.push(DaemonAction::Sleep);
                (DaemonPhase::Cooldown, a)
            }
        },
        (DaemonPhase::Publishing, DaemonEvent::FuseExited) => {
            let mut a: Vec<DaemonAction> = Vec::new();
            a.push(DaemonAction::RunCleanup);
            a.push(DaemonAction::Sleep);
            (DaemonPhase::Cooldown, a)
        },
        (DaemonPhase::Publishing, DaemonEvent::ConfigChanged) => {
            let mut a: Vec<DaemonAction> = Vec::new();
            a.push(DaemonAction::KillFuse);
            a.push(DaemonAction::RunCleanup);
            a.push(DaemonAction::Sleep);
            (DaemonPhase::Cooldown, a)
        },
        (DaemonPhase::Serving, DaemonEvent::FuseExited) => {
            let mut a: Vec<DaemonAction> = Vec::new();
            a.push(DaemonAction::RestoreProxies);
            a.push(DaemonAction::RunCleanup);
            a.push(DaemonAction::Sleep);
            (DaemonPhase::Cooldown, a)
        },
        (DaemonPhase::Serving, DaemonEvent::ConfigChanged) => {
            let mut a: Vec<DaemonAction> = Vec::new();
            a.push(DaemonAction::KillFuse);
            a.push(DaemonAction::RestoreProxies);
            a.push(DaemonAction::RunCleanup);
            a.push(DaemonAction::Sleep);
            (DaemonPhase::Cooldown, a)
        },
        (DaemonPhase::Cooldown, DaemonEvent::CooldownElapsed) => {
            let mut a: Vec<DaemonAction> = Vec::new();
            a.push(DaemonAction::SpawnFuse);
            (DaemonPhase::AwaitReady, a)
        },
        (DaemonPhase::AwaitReady, DaemonEvent::Shutdown) => {
            let mut a: Vec<DaemonAction> = Vec::new();
            a.push(DaemonAction::KillFuse);
            a.push(DaemonAction::RunCleanup);
            a.push(DaemonAction::Exit);
            (DaemonPhase::Exited, a)
        },
        (DaemonPhase::Publishing, DaemonEvent::Shutdown) => {
            let mut a: Vec<DaemonAction> = Vec::new();
            a.push(DaemonAction::KillFuse);
            a.push(DaemonAction::RunCleanup);
            a.push(DaemonAction::Exit);
            (DaemonPhase::Exited, a)
        },
        (DaemonPhase::Serving, DaemonEvent::Shutdown) => {
            let mut a: Vec<DaemonAction> = Vec::new();
            a.push(DaemonAction::KillFuse);
            a.push(DaemonAction::RestoreProxies);
            a.push(DaemonAction::RunCleanup);
            a.push(DaemonAction::Exit);
            (DaemonPhase::Exited, a)
        },
        (DaemonPhase::Cooldown, DaemonEvent::Shutdown) => {
            let mut a: Vec<DaemonAction> = Vec::new();
            a.push(DaemonAction::RunCleanup);
            a.push(DaemonAction::Exit);
            (DaemonPhase::Exited, a)
        },
        _ => (phase, Vec::new()),
    };
    proof {
        assert(acts@ =~= daemon_step_spec(phase, ev).1);
    }
    (next, acts)
}

/// Ordering guarantee: the publisher is spawned only when the server has
/// just signalled readiness.
pub proof fn lemma_publisher_needs_ready(phase: DaemonPhase, ev: DaemonEvent)
    ensures
        daemon_step_spec(phase, ev).1.contains(DaemonAction::SpawnPublisher) ==> phase
            == DaemonPhase::AwaitReady && ev == DaemonEvent::FuseReady,
{
}

/// Ordering guarantee: the per-target binds are published only after the
/// publisher child exited successfully.
pub proof fn lemma_publish_needs_publisher(phase: DaemonPhase, ev: DaemonEvent)
    ensures
        daemon_step_spec(phase, ev).1.contains(DaemonAction::PublishProxies) ==> phase
            == DaemonPhase::Publishing && ev == (DaemonEvent::PublisherExited { ok: true }),
{
}

/// Mount cleanliness on shutdown: from any live phase, the shutdown step
/// exits, its second-to-last action is the cleanup pass and its last is the
/// exit itself — so the cleanup is the final change to the mount table, and
/// the table it leaves holds no mount sourced by the application.
pub proof fn lemma_shutdown_mount_clean(
    phase: DaemonPhase,
    table: Seq<(Seq<u8>, Seq<u8>)>,
    src: Seq<u8>,
)
    requires
        phase != DaemonPhase::Exited,
    ensures
        daemon_step_spec(phase, DaemonEvent::Shutdown).0 == DaemonPhase::Exited,
        daemon_step_spec(phase, DaemonEvent::Shutdown).1.len() >= 2,
        daemon_step_spec(phase, DaemonEvent::Shutdown).1[daemon_step_spec(
            phase,
            DaemonEvent::Shutdown,
        ).1.len() - 2] == DaemonAction::RunCleanup,
        daemon_step_spec(phase, DaemonEvent::Shutdown).1.last() == DaemonAction::Exit,
        forall|j: int|
            0 <= j < cleanup_model(table, src).len() ==> (#[trigger] cleanup_model(table, src)[j]).0
                != src,
{
    crate::mount::lemma_cleanup_removes_all(table, src);
}

} // verus!
