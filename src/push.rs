//! Pushing: choosing the target remotes, and the swap-push-restore sequence
//! run for each of them. The sequence is a state machine: the caller performs
//! each action (write the manifest, run the deployment tool) and feeds back
//! what happened.
use vstd::prelude::*;
use vstd::string::StringExecFns;

use crate::config::{ClaspConfig, ConfigView, Entries};
use crate::error::ClubError;
use crate::remote::{valid_id, valid_name, RemoteId, RemoteName};
use crate::table::{has_key, lookup, table_ok};

verus! {

/// The remotes to push to, in order.
pub open spec fn push_targets(c: ConfigView, remote: Option<Seq<char>>, all: bool) -> Result<
    Entries,
    ClubError,
> {
    match c.remotes {
        None => Err(ClubError::ClubNotSetup),
        Some(t) => if remote is Some && all {
            Err(ClubError::BothRemoteAndAllPassed)
        } else if t.len() == 0 {
            Err(ClubError::NoRemotesAvailable)
        } else if all {
            Ok(t)
        } else {
            let name = match remote {
                Some(n) => n,
                None => "main"@,
            };
            if !valid_name(name) {
                Err(ClubError::InvalidRemoteName)
            } else if !has_key(t, name) {
                Err(ClubError::RemoteNotFound)
            } else {
                Ok(seq![(name, lookup(t, name).unwrap())])
            }
        },
    }
}

/// `c` with `id` as its active script id.
pub open spec fn with_script_id(c: ConfigView, id: Seq<char>) -> ConfigView {
    ConfigView { script_id: id, ..c }
}

/// What happened to the last action.
#[derive(Debug)]
pub enum PushEvent {
    /// The manifest was written.
    Written,
    /// The manifest could not be written.
    WriteFailed(String),
    /// The deployment tool ran and exited, successfully or not.
    PushExited(bool),
    /// The deployment tool could not be started.
    PushNotStarted(String),
}

/// What the caller is to do next.
#[derive(Debug)]
pub enum PushAction {
    /// Announce the remote by name, then write this configuration, whose
    /// active script id is the remote's.
    SwapIn(String, ClaspConfig),
    /// Run the deployment tool's push.
    RunPush,
    /// Write back this configuration, the one from before the push.
    Restore(ClaspConfig),
    /// Stop, with this result.
    Finish(Result<(), ClubError>),
}

/// The content of a `PushAction`.
pub enum PushActionView {
    SwapIn(Seq<char>, ConfigView),
    RunPush,
    Restore(ConfigView),
    Finish(Result<(), ClubError>),
}

impl PushAction {
    pub open spec fn view(&self) -> PushActionView {
        match self {
            PushAction::SwapIn(n, c) => PushActionView::SwapIn(n@, c@),
            PushAction::RunPush => PushActionView::RunPush,
            PushAction::Restore(c) => PushActionView::Restore(c@),
            PushAction::Finish(r) => PushActionView::Finish(*r),
        }
    }

    pub open spec fn wf(&self) -> bool {
        match self {
            PushAction::SwapIn(_, c) => c.wf(),
            PushAction::Restore(c) => c.wf(),
            _ => true,
        }
    }
}

/// Where a session stands for its current target.
#[derive(Debug)]
pub enum PushPhase {
    /// The swapped manifest is being written.
    Swapping,
    /// The deployment tool is running.
    Pushing,
    /// The saved manifest is being written back; the push's result waits.
    Restoring(Result<(), ClubError>),
    /// Nothing is left to do.
    Finished,
}

/// The content of a session.
pub struct PushView {
    pub saved: ConfigView,
    pub targets: Entries,
    pub current: int,
    pub phase: PushPhase,
}

impl PushView {
    pub open spec fn wf(self) -> bool {
        &&& 0 <= self.current < self.targets.len()
        &&& table_ok(self.targets)
        &&& self.saved.remotes matches Some(t) && table_ok(t)
    }

    /// The events that the current phase waits for.
    pub open spec fn expects(self, e: PushEvent) -> bool {
        match self.phase {
            PushPhase::Swapping => e is Written || e is WriteFailed,
            PushPhase::Pushing => e is PushExited || e is PushNotStarted,
            PushPhase::Restoring(_) => e is Written || e is WriteFailed,
            PushPhase::Finished => false,
        }
    }
}

/// The swapped configuration for target `i`.
pub open spec fn swap_action(s: PushView, i: int) -> PushActionView {
    PushActionView::SwapIn(s.targets[i].0, with_script_id(s.saved, s.targets[i].1))
}

/// Whether `r` is the failure of a push whose tool exited unsuccessfully.
pub open spec fn is_push_failure(r: Result<(), ClubError>) -> bool {
    r matches Err(ClubError::ClaspError(m)) && m@ == "clasp push failed"@
}

/// The result that a push event leaves waiting.
pub open spec fn pending_ok(e: PushEvent, pending: Result<(), ClubError>) -> bool {
    match e {
        PushEvent::PushNotStarted(m) => pending == Err::<(), ClubError>(ClubError::ClaspError(m)),
        PushEvent::PushExited(true) => pending is Ok,
        _ => is_push_failure(pending),
    }
}

/// One step of a session: from `s`, on the event `e`, the session moves to
/// `s2` and asks for the action `a`.
pub open spec fn push_step(s: PushView, e: PushEvent, s2: PushView, a: PushActionView) -> bool {
    match s.phase {
        PushPhase::Swapping => match e {
            PushEvent::WriteFailed(m) => s2 == PushView { phase: PushPhase::Finished, ..s }
                && a == PushActionView::Finish(Err(ClubError::ManifestWriteFail(m))),
            _ => s2 == PushView { phase: PushPhase::Pushing, ..s } && a == PushActionView::RunPush,
        },
        PushPhase::Pushing => s2.phase matches PushPhase::Restoring(pending) && pending_ok(e, pending)
            && s2 == PushView { phase: s2.phase, ..s } && a == PushActionView::Restore(s.saved),
        PushPhase::Restoring(pending) => match e {
            PushEvent::WriteFailed(m) => s2 == PushView { phase: PushPhase::Finished, ..s }
                && a == PushActionView::Finish(Err(ClubError::ManifestWriteFail(m))),
            _ => if pending is Ok && s.current + 1 < s.targets.len() {
                s2 == PushView { phase: PushPhase::Swapping, current: s.current + 1, ..s }
                    && a == swap_action(s, s.current + 1)
            } else {
                s2 == PushView { phase: PushPhase::Finished, ..s } && a == PushActionView::Finish(
                    pending,
                )
            },
        },
        PushPhase::Finished => false,
    }
}

pub open spec fn opt_view(o: Option<String>) -> Option<Seq<char>> {
    match o {
        Some(s) => Some(s@),
        None => None,
    }
}

pub open spec fn targets_view(v: Seq<(RemoteName, RemoteId)>) -> Entries {
    v.map_values(|p: (RemoteName, RemoteId)| (p.0@, p.1@))
}

/// A push in progress: the configuration from before it, the remotes to
/// push to, the one being pushed to, and where that push stands.
#[derive(Debug)]
pub struct PushSession {
    saved: ClaspConfig,
    targets: Vec<(RemoteName, RemoteId)>,
    current: usize,
    phase: PushPhase,
}

impl PushSession {
    pub closed spec fn view(&self) -> PushView {
        PushView {
            saved: self.saved@,
            targets: targets_view(self.targets@),
            current: self.current as int,
            phase: self.phase,
        }
    }

    pub closed spec fn inv(&self) -> bool {
        self@.wf() && self.saved.wf()
    }

    /// Whether the current phase waits for `e`.
    pub fn expects(&self, e: &PushEvent) -> (r: bool)
        ensures
            r == self@.expects(*e),
    {
        match self.phase {
            PushPhase::Swapping => matches!(e, PushEvent::Written | PushEvent::WriteFailed(_)),
            PushPhase::Pushing => matches!(e, PushEvent::PushExited(_) | PushEvent::PushNotStarted(_)),
            PushPhase::Restoring(_) => matches!(e, PushEvent::Written | PushEvent::WriteFailed(_)),
            PushPhase::Finished => false,
        }
    }

    fn swap_in(&self) -> (r: PushAction)
        requires
            self.inv(),
        ensures
            r@ == swap_action(self@, self@.current),
            r.wf(),
    {
        let (name, id) = &self.targets[self.current];
        let mut c = self.saved.snapshot();
        c.script_id = id.to_string();
        PushAction::SwapIn(name.to_string(), c)
    }

    /// The first action: swap in the first target.
    pub fn begin(&self) -> (r: PushAction)
        requires
            self.inv(),
        ensures
            r@ == swap_action(self@, self@.current),
            r.wf(),
    {
        self.swap_in()
    }

    /// Takes the outcome of the last action and returns the next one.
    pub fn step(&mut self, e: PushEvent) -> (r: PushAction)
        requires
            old(self).inv(),
            old(self)@.expects(e),
        ensures
            final(self).inv(),
            push_step(old(self)@, e, final(self)@, r@),
            r.wf(),
    {
        proof {
            assert(targets_view(self.targets@).len() == self.targets@.len());
            assert(self.current < self.targets@.len());
        }
        let mut phase = PushPhase::Finished;
        core::mem::swap(&mut phase, &mut self.phase);
        match phase {
            PushPhase::Swapping => match e {
                PushEvent::WriteFailed(m) => PushAction::Finish(Err(ClubError::ManifestWriteFail(m))),
                _ => {
                    self.phase = PushPhase::Pushing;
                    PushAction::RunPush
                },
            },
            PushPhase::Pushing => {
                let pending = match e {
                    PushEvent::PushNotStarted(m) => Err(ClubError::ClaspError(m)),
                    PushEvent::PushExited(true) => Ok(()),
                    _ => Err(ClubError::ClaspError(String::from_str("clasp push failed"))),
                };
                self.phase = PushPhase::Restoring(pending);
                PushAction::Restore(self.saved.snapshot())
            },
            PushPhase::Restoring(pending) => match e {
                PushEvent::WriteFailed(m) => PushAction::Finish(Err(ClubError::ManifestWriteFail(m))),
                _ => {
                    if pending.is_ok() && self.current < self.targets.len() - 1 {
                        self.current = self.current + 1;
                        self.phase = PushPhase::Swapping;
                        self.swap_in()
                    } else {
                        PushAction::Finish(pending)
                    }
                },
            },
            PushPhase::Finished => PushAction::Finish(Ok(())),
        }
    }
}

/// Chooses the remotes to push to (all of them, or the one named, `main` by
/// default) and starts a session for them.
pub fn club_push(config: ClaspConfig, remote: Option<String>, all: bool) -> (r: Result<
    PushSession,
    ClubError,
>)
    requires
        config.wf(),
    ensures
        r matches Ok(s) ==> s.inv() && s@.saved == config@ && s@.current == 0
            && s@.phase is Swapping && push_targets(config@, opt_view(remote), all) == Ok::<
            Entries,
            ClubError,
        >(s@.targets),
        r matches Err(e) ==> push_targets(config@, opt_view(remote), all) == Err::<
            Entries,
            ClubError,
        >(e),
{
    let t = match &config.club_remotes {
        Some(t) => t,
        None => {
            return Err(ClubError::ClubNotSetup);
        },
    };
    if remote.is_some() && all {
        return Err(ClubError::BothRemoteAndAllPassed);
    }
    let n = t.len();
    if n == 0 {
        return Err(ClubError::NoRemotesAvailable);
    }
    let mut targets: Vec<(RemoteName, RemoteId)> = Vec::new();
    if all {
        let mut i: usize = 0;
        while i < n
            invariant
                n == t@.len(),
                t.wf(),
                i <= n,
                targets@.len() == i,
                forall|j: int|
                    0 <= j < i ==> (#[trigger] targets@[j]).0@ == t@[j].0 && targets@[j].1@ == t@[j].1,
            decreases n - i,
        {
            let pair = t.get_index(i);
            targets.push(pair);
            i = i + 1;
        }
        assert(targets_view(targets@) =~= t@);
    } else {
        let name = match remote {
            Some(s) => s,
            None => String::from_str("main"),
        };
        let remote_name = match RemoteName::try_from(name) {
            Ok(rn) => rn,
            Err(e) => {
                return Err(e);
            },
        };
        let id = match t.get(&remote_name) {
            Some(id) => id,
            None => {
                return Err(ClubError::RemoteNotFound);
            },
        };
        targets.push((remote_name, id));
        proof {
            let tv = targets_view(targets@);
            assert(tv =~= seq![(remote_name@, id@)]);
            let p = crate::table::key_pos(t@, remote_name@);
            assert(valid_id(t@[p].1));
            assert(table_ok(tv));
        }
    }
    Ok(PushSession { saved: config, targets, current: 0, phase: PushPhase::Swapping })
}

/// Whatever a push attempt's outcome (success, failure, or a tool that could
/// not start), the next action writes back the configuration from before
/// the push, with the active script id it had then.
pub proof fn lemma_push_restores(s: PushView, e: PushEvent, s2: PushView, a: PushActionView)
    requires
        s.wf(),
        s.phase is Pushing,
        s.expects(e),
        push_step(s, e, s2, a),
    ensures
        a == PushActionView::Restore(s.saved),
        a matches PushActionView::Restore(c) && c.script_id == s.saved.script_id,
        s2.phase is Restoring,
        s2.saved == s.saved,
{
}

/// A session finishes only after writing back the saved configuration,
/// or when the swapped configuration could not be written at all.
pub proof fn lemma_push_finishes_after_restore(
    s: PushView,
    e: PushEvent,
    s2: PushView,
    a: PushActionView,
)
    requires
        s.wf(),
        s.expects(e),
        push_step(s, e, s2, a),
        a is Finish,
    ensures
        s.phase is Restoring || (s.phase is Swapping && e is WriteFailed),
{
}

} // verus!
