//! The volume of a process.
//!
//! The caller talks to the system's audio sessions. This module decides which session is
//! used, which sessions are remembered, when the audio device is looked up again,
//! and what is reported.
use vstd::prelude::*;
use vstd::string::*;
use crate::binary32;
use crate::binary32::Binary32;
use crate::error::{ErrorKind, MirrorStarError};
use crate::text;

verus! {

/// The system's answer that a process is still running.
pub const WAIT_TIMEOUT: u32 = 258;

/// The system's answer that a process has ended.
pub const WAIT_OBJECT_0: u32 = 0;

/// The system's answer that it could not tell.
pub const WAIT_FAILED: u32 = 0xffff_ffff;

/// The exit code of a process that is still running.
pub const STILL_ACTIVE: u32 = 259;

/// Whether a process counts as running, by the answer to a wait for its end; none if the
/// process could not be opened. If the system could not tell, it counts as running.
pub fn is_pid_running(wait_result: Option<u32>) -> (r: bool)
    ensures
        r == (wait_result == Some(WAIT_TIMEOUT) || wait_result == Some(WAIT_FAILED)),
        r == (wait_result == Some(258u32) || wait_result == Some(0xffff_ffffu32)),
{
    match wait_result {
        None => false,
        Some(w) => {
            if w == WAIT_TIMEOUT {
                true
            } else if w == WAIT_OBJECT_0 {
                false
            } else {
                w == WAIT_FAILED
            }
        },
    }
}

/// Whether a process is alive, by its exit code; none if the process could not be opened
/// or asked.
pub fn is_process_alive(exit_code: Option<u32>) -> (r: bool)
    ensures
        r == (exit_code == Some(STILL_ACTIVE)),
        r == (exit_code == Some(259u32)),
{
    match exit_code {
        None => false,
        Some(c) => c == STILL_ACTIVE,
    }
}

/// The processes that are not running, in order.
pub open spec fn stale_of(pids: Seq<u32>, running: Seq<bool>) -> Seq<u32>
    decreases pids.len(),
{
    if pids.len() == 0 {
        Seq::empty()
    } else {
        let before = stale_of(pids.drop_last(), running);
        if running[pids.len() - 1] {
            before
        } else {
            before.push(pids.last())
        }
    }
}

/// The processes that are not running, in order, when `running` tells of each whether it
/// is.
pub fn collect_stale_pids(cached_pids: &[u32], running: &[bool]) -> (r: Vec<u32>)
    requires
        cached_pids.len() == running.len(),
    ensures
        r@ == stale_of(cached_pids@, running@),
{
    let mut out: Vec<u32> = Vec::new();
    let mut i: usize = 0;
    while i < cached_pids.len()
        invariant
            cached_pids.len() == running.len(),
            i <= cached_pids.len(),
            out@ == stale_of(cached_pids@.take(i as int), running@),
        decreases cached_pids.len() - i,
    {
        assert(cached_pids@.take(i + 1).drop_last() =~= cached_pids@.take(i as int));
        assert(cached_pids@.take(i + 1).last() == cached_pids@[i as int]);
        if !running[i] {
            out.push(cached_pids[i]);
        }
        i += 1;
    }
    assert(cached_pids@.take(i as int) =~= cached_pids@);
    out
}

/// A process is among the stale ones exactly if it does not run.
proof fn lemma_stale(pids: Seq<u32>, running: Seq<bool>, pid: u32)
    requires
        pids.len() == running.len(),
    ensures
        stale_of(pids, running).contains(pid) <==> exists|i: int|
            0 <= i < pids.len() && #[trigger] pids[i] == pid && !running[i],
    decreases pids.len(),
{
    if pids.len() > 0 {
        let n = pids.len() - 1;
        let before = stale_of(pids.drop_last(), running.drop_last());
        lemma_stale(pids.drop_last(), running.drop_last(), pid);
        lemma_stale_prefix(pids.drop_last(), running);
        assert(stale_of(pids.drop_last(), running) == before);
        if stale_of(pids, running).contains(pid) {
            if before.contains(pid) {
                let i = choose|i: int|
                    0 <= i < pids.drop_last().len() && #[trigger] pids.drop_last()[i] == pid
                        && !running.drop_last()[i];
                assert(pids[i] == pid && !running[i]);
            } else {
                let k = choose|k: int|
                    0 <= k < stale_of(pids, running).len() && stale_of(pids, running)[k] == pid;
                if k < before.len() {
                    assert(before[k] == pid);
                }
                assert(pids[n] == pid && !running[n]);
            }
        }
        if exists|i: int| 0 <= i < pids.len() && #[trigger] pids[i] == pid && !running[i] {
            let i = choose|i: int|
                0 <= i < pids.len() && #[trigger] pids[i] == pid && !running[i];
            if i < n {
                assert(pids.drop_last()[i] == pid && !running.drop_last()[i]);
                let k = choose|k: int| 0 <= k < before.len() && before[k] == pid;
                assert(stale_of(pids, running)[k] == pid);
            } else {
                assert(stale_of(pids, running)[before.len() as int] == pid);
            }
        }
    }
}

/// What does not concern the listed processes does not change which are stale.
proof fn lemma_stale_prefix(pids: Seq<u32>, running: Seq<bool>)
    requires
        pids.len() + 1 == running.len(),
    ensures
        stale_of(pids, running) == stale_of(pids, running.drop_last()),
    decreases pids.len(),
{
    lemma_stale_local(pids, running, running.drop_last());
}

proof fn lemma_stale_local(pids: Seq<u32>, a: Seq<bool>, b: Seq<bool>)
    requires
        pids.len() <= a.len(),
        pids.len() <= b.len(),
        forall|i: int| 0 <= i < pids.len() ==> a[i] == b[i],
    ensures
        stale_of(pids, a) == stale_of(pids, b),
    decreases pids.len(),
{
    if pids.len() > 0 {
        lemma_stale_local(pids.drop_last(), a, b);
    }
}

/// Controls the volume of processes. Knows whether there is an audio device, and of which
/// processes the caller keeps a session.
pub struct VolumeControl {
    has_manager: bool,
    cache: Vec<u32>,
}

/// How looking up the audio device ended.
#[derive(Debug)]
pub enum RefreshOutcome {
    /// Devices could not be listed at all, in the system's words.
    NoEnumerator(String),
    /// There is no usable device, in the system's words.
    NoDevice(String),
    /// The device is there.
    Connected,
}

/// How far an attempt to use the session of a process has come: what is done next.
#[derive(Clone, Copy, Debug, PartialEq, Eq, Structural)]
pub enum AttemptStage {
    /// Ask the session that is kept which process it belongs to.
    CheckCached,
    /// Use the session that is kept.
    UseCached,
    /// See which of the processes with a session are running.
    CheckRunning,
    /// Count the sessions.
    Count,
    /// Ask a session which process it belongs to.
    Look,
    /// Keep and use the session asked last.
    UseFound,
    /// See whether the process is alive.
    CheckAlive,
}

/// How a step of an attempt went.
#[derive(Debug)]
pub enum AttemptEvent {
    /// The process of a session, if the session told.
    Owner(Option<u32>),
    /// Using the session succeeded, or failed.
    Used(Result<(), MirrorStarError>),
    /// Which of the processes with a session, in order, are running.
    Running(Vec<bool>),
    /// How many sessions there are, or the system's words.
    Counted(Result<i32, String>),
    /// Whether the process is alive.
    Alive(bool),
}

/// What to do next in an attempt.
#[derive(Debug)]
pub enum AttemptNext {
    /// Do what this stage says.
    Go(AttemptStage),
    /// The session was used with success.
    Succeeded,
    /// The attempt failed.
    Failed(MirrorStarError),
}

/// An attempt to use the session of a process.
pub struct SessionAttempt {
    pid: u32,
    stage: AttemptStage,
    index: i32,
    count: i32,
    error: Option<MirrorStarError>,
}

/// What an attempt and the control it works for hold.
#[verifier::ext_equal]
pub struct AttemptState {
    pub pid: u32,
    pub stage: AttemptStage,
    pub index: int,
    pub count: int,
    pub error: Option<(ErrorKind, Seq<char>)>,
    pub has_manager: bool,
    pub cache: Set<u32>,
}

/// What a step leads to.
pub enum AttemptOutcome {
    Go,
    Succeeded,
    Failed((ErrorKind, Seq<char>)),
}

impl AttemptState {
    /// Goes on with a stage.
    pub open spec fn at(self, stage: AttemptStage) -> AttemptState {
        AttemptState { stage, ..self }
    }

    /// After a failure it is checked whether the process is alive.
    pub open spec fn failing(self, error: (ErrorKind, Seq<char>)) -> AttemptState {
        AttemptState { stage: AttemptStage::CheckAlive, error: Some(error), ..self }
    }

    /// All sessions are gone through, if there is an audio device.
    pub open spec fn enumerating(self) -> AttemptState {
        if self.has_manager {
            self.at(AttemptStage::Count)
        } else {
            self.failing((ErrorKind::AudioControl, "Session manager 未初始化"@))
        }
    }

    /// Without a usable session at hand, sessions of ended processes are dropped first.
    pub open spec fn searching(self) -> AttemptState {
        if self.cache.len() > 0 {
            self.at(AttemptStage::CheckRunning)
        } else {
            self.enumerating()
        }
    }

    /// The process has no session.
    pub open spec fn not_found(self) -> AttemptState {
        self.failing(
            (
                ErrorKind::AudioControl,
                "未找到进程 "@ + text::decimal(self.pid as nat) + " 的音频会话"@,
            ),
        )
    }
}

/// What is kept of the sessions once those of ended processes are dropped.
pub open spec fn still_running(cache: Seq<u32>, running: Seq<bool>) -> Set<u32> {
    cache.to_set().difference(stale_of(cache, running).to_set())
}

/// The state before anything was done for process `pid`: a session that is kept is
/// checked first.
pub open spec fn attempt_start(s: AttemptState) -> AttemptState {
    if s.cache.contains(s.pid) {
        s.at(AttemptStage::CheckCached)
    } else {
        s.searching()
    }
}

/// Whether the report is one on the step of this stage.
pub open spec fn attempt_fits(stage: AttemptStage, event: AttemptEvent, cached: nat) -> bool {
    match stage {
        AttemptStage::CheckCached | AttemptStage::Look => event is Owner,
        AttemptStage::UseCached | AttemptStage::UseFound => event is Used,
        AttemptStage::CheckRunning => event matches AttemptEvent::Running(r) && r@.len() == cached,
        AttemptStage::Count => event is Counted,
        AttemptStage::CheckAlive => event is Alive,
    }
}

/// What a report leads to; `order` is the order in which the sessions are kept.
pub open spec fn attempt_step(s: AttemptState, order: Seq<u32>, event: AttemptEvent) -> (
    AttemptState,
    AttemptOutcome,
) {
    match (s.stage, event) {
        (AttemptStage::CheckCached, AttemptEvent::Owner(owner)) => if owner == Some(s.pid) {
            (s.at(AttemptStage::UseCached), AttemptOutcome::Go)
        } else {
            (
                (AttemptState { cache: s.cache.remove(s.pid), ..s }).searching(),
                AttemptOutcome::Go,
            )
        },
        (AttemptStage::UseCached | AttemptStage::UseFound, AttemptEvent::Used(Ok(_))) => (
            s,
            AttemptOutcome::Succeeded,
        ),
        (AttemptStage::UseCached | AttemptStage::UseFound, AttemptEvent::Used(Err(e))) => (
            s.failing(e@),
            AttemptOutcome::Go,
        ),
        (AttemptStage::CheckRunning, AttemptEvent::Running(running)) => (
            (AttemptState { cache: still_running(order, running@), ..s }).enumerating(),
            AttemptOutcome::Go,
        ),
        (AttemptStage::Count, AttemptEvent::Counted(Err(t))) => (
            s.failing((ErrorKind::Win32, t@)),
            AttemptOutcome::Go,
        ),
        (AttemptStage::Count, AttemptEvent::Counted(Ok(n))) => if n > 0 {
            (
                AttemptState { stage: AttemptStage::Look, index: 0, count: n as int, ..s },
                AttemptOutcome::Go,
            )
        } else {
            (s.not_found(), AttemptOutcome::Go)
        },
        (AttemptStage::Look, AttemptEvent::Owner(owner)) => if owner == Some(s.pid) {
            (
                AttemptState { stage: AttemptStage::UseFound, cache: s.cache.insert(s.pid), ..s },
                AttemptOutcome::Go,
            )
        } else if s.index + 1 < s.count {
            (AttemptState { index: s.index + 1, ..s }, AttemptOutcome::Go)
        } else {
            (s.not_found(), AttemptOutcome::Go)
        },
        (AttemptStage::CheckAlive, AttemptEvent::Alive(alive)) => (
            AttemptState {
                cache: if alive {
                    s.cache
                } else {
                    s.cache.remove(s.pid)
                },
                ..s
            },
            AttemptOutcome::Failed(s.error->0),
        ),
        _ => (s, AttemptOutcome::Go),
    }
}

/// The state after some sessions, in order, were asked which process they belong to.
pub open spec fn after_asking(
    s: AttemptState,
    order: Seq<u32>,
    owners: Seq<Option<u32>>,
) -> AttemptState
    decreases owners.len(),
{
    if owners.len() == 0 {
        s
    } else {
        attempt_step(
            after_asking(s, order, owners.drop_last()),
            order,
            AttemptEvent::Owner(owners.last()),
        ).0
    }
}

proof fn lemma_asking_goes_on(s: AttemptState, order: Seq<u32>, owners: Seq<Option<u32>>)
    requires
        s.stage == AttemptStage::Look,
        s.index == 0,
        owners.len() < s.count,
        forall|k: int| 0 <= k < owners.len() ==> owners[k] != Some(s.pid),
    ensures
        after_asking(s, order, owners) == (AttemptState { index: owners.len() as int, ..s }),
    decreases owners.len(),
{
    if owners.len() > 0 {
        let fewer = owners.drop_last();
        assert forall|k: int| 0 <= k < fewer.len() implies fewer[k] != Some(s.pid) by {
            assert(owners[k] != Some(s.pid));
        }
        lemma_asking_goes_on(s, order, fewer);
        assert(owners[owners.len() - 1] != Some(s.pid));
    }
}

/// If any of the sessions belongs to the process, the first that does is found, kept and
/// used, whichever processes the sessions before it belong to, and also if some of those do
/// not tell. Until it is found the sessions are asked one after the other.
pub proof fn law_first_session_found(
    s: AttemptState,
    order: Seq<u32>,
    n: i32,
    owners: Seq<Option<u32>>,
    i: int,
)
    requires
        s.stage == AttemptStage::Count,
        owners.len() == n,
        0 <= i < n,
        owners[i] == Some(s.pid),
        forall|k: int| 0 <= k < i ==> owners[k] != Some(s.pid),
    ensures
        ({
            let counted = attempt_step(s, order, AttemptEvent::Counted(Ok(n))).0;
            let found = after_asking(counted, order, owners.take(i + 1));
            &&& found.stage == AttemptStage::UseFound
            &&& found.index == i
            &&& found.pid == s.pid
            &&& forall|p: u32| #[trigger]
                found.cache.contains(p) <==> p == s.pid || s.cache.contains(p)
            &&& forall|k: int|
                0 <= k <= i ==> (#[trigger] after_asking(counted, order, owners.take(k))).stage
                    == AttemptStage::Look && after_asking(counted, order, owners.take(k)).index == k
        }),
{
    let counted = attempt_step(s, order, AttemptEvent::Counted(Ok(n))).0;
    assert forall|k: int| 0 <= k <= i implies (#[trigger] after_asking(
        counted,
        order,
        owners.take(k),
    )) == (AttemptState { index: k, ..counted }) by {
        lemma_asking_goes_on(counted, order, owners.take(k));
    }
    assert(owners.take(i + 1).drop_last() =~= owners.take(i));
    assert(owners.take(i + 1).last() == Some(s.pid));
    assert(after_asking(counted, order, owners.take(i)) == (AttemptState { index: i, ..counted }));
}

/// Only if none of the sessions belongs to the process, and then after all of them were
/// asked, none is found. This is reported once it is known whether the process is alive; no
/// further session is kept.
pub proof fn law_no_session_found(
    s: AttemptState,
    order: Seq<u32>,
    n: i32,
    owners: Seq<Option<u32>>,
    alive: bool,
)
    requires
        s.stage == AttemptStage::Count,
        n > 0 ==> owners.len() == n,
        n <= 0 ==> owners.len() == 0,
        forall|k: int| 0 <= k < owners.len() ==> owners[k] != Some(s.pid),
    ensures
        ({
            let counted = attempt_step(s, order, AttemptEvent::Counted(Ok(n))).0;
            let missed = after_asking(counted, order, owners);
            let end = attempt_step(missed, order, AttemptEvent::Alive(alive));
            &&& missed.stage == AttemptStage::CheckAlive
            &&& missed.cache == s.cache
            &&& end.1 == AttemptOutcome::Failed(
                (
                    ErrorKind::AudioControl,
                    "未找到进程 "@ + text::decimal(s.pid as nat) + " 的音频会话"@,
                ),
            )
            &&& forall|k: int|
                0 <= k < owners.len() ==> (#[trigger] after_asking(
                    counted,
                    order,
                    owners.take(k),
                )).stage == AttemptStage::Look
        }),
{
    let counted = attempt_step(s, order, AttemptEvent::Counted(Ok(n))).0;
    assert forall|k: int| 0 <= k < owners.len() implies (#[trigger] after_asking(
        counted,
        order,
        owners.take(k),
    )) == (AttemptState { index: k, ..counted }) by {
        lemma_asking_goes_on(counted, order, owners.take(k));
    }
    if n > 0 {
        assert(owners.drop_last() =~= owners.take(n - 1));
        assert(owners[n - 1] != Some(s.pid));
        assert(after_asking(counted, order, owners.take(n - 1)) == (AttemptState {
            index: n - 1,
            ..counted
        }));
    }
}

/// The attempt and the control together.
pub open spec fn attempt_state(control: VolumeControl, attempt: SessionAttempt) -> AttemptState {
    AttemptState {
        pid: attempt.pid(),
        stage: attempt.stage(),
        index: attempt.index(),
        count: attempt.count(),
        error: attempt.error(),
        has_manager: control.has_manager(),
        cache: control.cache(),
    }
}

impl SessionAttempt {
    /// The process.
    pub closed spec fn pid(self) -> u32 {
        self.pid
    }

    /// What is done next.
    pub closed spec fn stage(self) -> AttemptStage {
        self.stage
    }

    /// The session that is looked at.
    pub closed spec fn index(self) -> int {
        self.index as int
    }

    /// How many sessions there are.
    pub closed spec fn count(self) -> int {
        self.count as int
    }

    /// Why the attempt fails.
    pub closed spec fn error(self) -> Option<(ErrorKind, Seq<char>)> {
        match self.error {
            Some(e) => Some(e@),
            None => None,
        }
    }

    /// A session that is looked at is there, and a failing attempt has a reason.
    pub open spec fn wf(self) -> bool {
        &&& self.stage() == AttemptStage::Look ==> 0 <= self.index() < self.count()
        &&& self.stage() == AttemptStage::CheckAlive ==> self.error() is Some
    }

    /// The number of the session that is looked at or used.
    pub fn session_index(&self) -> (r: i32)
        ensures
            r == self.index(),
    {
        self.index
    }

    /// Goes on with a stage.
    fn go(&mut self, stage: AttemptStage) -> (r: AttemptNext)
        ensures
            *final(self) == (SessionAttempt { stage, ..*old(self) }),
            r == AttemptNext::Go(stage),
    {
        self.stage = stage;
        AttemptNext::Go(stage)
    }

    /// Fails, once it was seen whether the process is alive.
    fn fail(&mut self, error: MirrorStarError) -> (r: AttemptNext)
        ensures
            *final(self) == (SessionAttempt {
                stage: AttemptStage::CheckAlive,
                error: Some(error),
                ..*old(self)
            }),
            r == AttemptNext::Go(AttemptStage::CheckAlive),
    {
        self.error = Some(error);
        self.go(AttemptStage::CheckAlive)
    }

    /// Fails because the process has no session.
    fn fail_not_found(&mut self) -> (r: AttemptNext)
        ensures
            final(self).pid == old(self).pid,
            final(self).stage == AttemptStage::CheckAlive,
            final(self).index == old(self).index,
            final(self).count == old(self).count,
            final(self).error matches Some(e) && e@ == (
                ErrorKind::AudioControl,
                "未找到进程 "@ + text::decimal(old(self).pid as nat) + " 的音频会话"@,
            ),
            r == AttemptNext::Go(AttemptStage::CheckAlive),
    {
        let mut m = String::from_str("未找到进程 ");
        m.append(text::decimal_text(self.pid as u128).as_str());
        m.append(" 的音频会话");
        self.fail(MirrorStarError::AudioControl(m))
    }
}

/// What a list holds after one more was added.
proof fn lemma_push_contains(s: Seq<u32>, a: u32)
    ensures
        forall|q: u32| #[trigger] s.push(a).contains(q) <==> q == a || s.contains(q),
{
    assert forall|q: u32| #[trigger] s.push(a).contains(q) <==> q == a || s.contains(q) by {
        assert(s.push(a)[s.len() as int] == a);
        if s.contains(q) {
            let k = choose|k: int| 0 <= k < s.len() && s[k] == q;
            assert(s.push(a)[k] == q);
        }
        if s.push(a).contains(q) && q != a {
            let k = choose|k: int| 0 <= k < s.push(a).len() && s.push(a)[k] == q;
            assert(s[k] == q);
        }
    }
}

/// `pids` without `pid`.
fn without(pids: &Vec<u32>, pid: u32) -> (r: Vec<u32>)
    requires
        pids@.no_duplicates(),
    ensures
        r@.no_duplicates(),
        r@.to_set() == pids@.to_set().remove(pid),
{
    let mut out: Vec<u32> = Vec::new();
    let mut i: usize = 0;
    while i < pids.len()
        invariant
            pids@.no_duplicates(),
            i <= pids.len(),
            out@.no_duplicates(),
            forall|p: u32| out@.contains(p) <==> p != pid && pids@.take(i as int).contains(p),
        decreases pids.len() - i,
    {
        let p = pids[i];
        let ghost before = out@;
        assert(!pids@.take(i as int).contains(p));
        assert(pids@.take(i + 1) =~= pids@.take(i as int).push(p));
        proof {
            lemma_push_contains(pids@.take(i as int), p);
            lemma_push_contains(before, p);
        }
        if p != pid {
            out.push(p);
            assert forall|a: int, b: int|
                0 <= a < out@.len() && 0 <= b < out@.len() && a != b implies out@[a] != out@[b] by {
                assert(!before.contains(p));
                if a < before.len() {
                    assert(before.contains(before[a]));
                }
                if b < before.len() {
                    assert(before.contains(before[b]));
                }
            }
        }
        i += 1;
    }
    assert(pids@.take(i as int) =~= pids@);
    assert(out@.to_set() =~= pids@.to_set().remove(pid));
    out
}

/// Whether `pid` is among `pids`.
fn contains_pid(pids: &Vec<u32>, pid: u32) -> (r: bool)
    ensures
        r == pids@.contains(pid),
{
    let mut i: usize = 0;
    while i < pids.len()
        invariant
            i <= pids.len(),
            forall|k: int| 0 <= k < i ==> pids@[k] != pid,
        decreases pids.len() - i,
    {
        if pids[i] == pid {
            assert(pids@[i as int] == pid);
            return true;
        }
        i += 1;
    }
    false
}

impl VolumeControl {
    /// There is an audio device.
    pub closed spec fn has_manager(self) -> bool {
        self.has_manager
    }

    /// The processes of which a session is kept.
    pub closed spec fn cache(self) -> Set<u32> {
        self.cache@.to_set()
    }

    /// The same processes, in the order in which they are listed.
    pub closed spec fn cache_order(self) -> Seq<u32> {
        self.cache@
    }

    /// No process is listed twice.
    pub closed spec fn wf(self) -> bool {
        self.cache@.no_duplicates()
    }

    /// Starts with the audio device, or fails in the system's words.
    pub fn new(connected: Result<(), String>) -> (r: Result<Self, MirrorStarError>)
        ensures
            match connected {
                Ok(_) => r matches Ok(v) && v.wf() && v.has_manager() && v.cache() == Set::<
                    u32,
                >::empty(),
                Err(t) => r matches Err(e) && e@ == (ErrorKind::Win32, t@),
            },
    {
        match connected {
            Ok(_) => {
                let v = VolumeControl { has_manager: true, cache: Vec::new() };
                assert(v.cache() =~= Set::<u32>::empty());
                Ok(v)
            },
            Err(t) => Err(MirrorStarError::Win32(t)),
        }
    }

    /// Starts without an audio device: nothing is asked of the system, and nothing fails.
    pub fn new_disabled() -> (r: Self)
        ensures
            r.wf(),
            !r.has_manager(),
            r.cache() == Set::<u32>::empty(),
    {
        let r = VolumeControl { has_manager: false, cache: Vec::new() };
        assert(r.cache() =~= Set::<u32>::empty());
        r
    }

    /// Whether there is no audio device.
    pub fn is_degraded(&self) -> (r: bool)
        ensures
            r == !self.has_manager(),
    {
        !self.has_manager
    }

    /// Whether a session of process `pid` is kept.
    pub fn is_cached(&self, pid: u32) -> (r: bool)
        ensures
            r == self.cache().contains(pid),
    {
        contains_pid(&self.cache, pid)
    }

    /// The processes of which a session is kept.
    pub fn cached_pids(&self) -> (r: &Vec<u32>)
        ensures
            r@ == self.cache_order(),
            r@.to_set() == self.cache(),
    {
        &self.cache
    }

    /// Takes note of how looking up the audio device went. Sessions of another device are of
    /// no use, so they are dropped; if there is no usable device all stays as it was.
    pub fn refresh_session_manager(&mut self, outcome: RefreshOutcome) -> (r: Result<
        (),
        MirrorStarError,
    >)
        requires
            old(self).wf(),
        ensures
            final(self).wf(),
            match outcome {
                RefreshOutcome::NoEnumerator(t) => {
                    &&& r matches Err(e) && e@ == (ErrorKind::Win32, t@)
                    &&& final(self).has_manager() == old(self).has_manager()
                    &&& final(self).cache() == Set::<u32>::empty()
                },
                RefreshOutcome::NoDevice(t) => {
                    &&& r matches Err(e) && e@ == (ErrorKind::Win32, t@)
                    &&& *final(self) == *old(self)
                },
                RefreshOutcome::Connected => {
                    &&& r is Ok
                    &&& final(self).has_manager()
                    &&& final(self).cache() == Set::<u32>::empty()
                },
            },
    {
        match outcome {
            RefreshOutcome::NoEnumerator(t) => {
                self.cache = Vec::new();
                assert(self.cache() =~= Set::<u32>::empty());
                Err(MirrorStarError::Win32(t))
            },
            RefreshOutcome::NoDevice(t) => Err(MirrorStarError::Win32(t)),
            RefreshOutcome::Connected => {
                self.has_manager = true;
                self.cache = Vec::new();
                assert(self.cache() =~= Set::<u32>::empty());
                Ok(())
            },
        }
    }

    /// The volume to set, brought into the range from 0 to 1; nothing to do without an audio
    /// device.
    pub fn set_process_volume(&self, volume: Binary32) -> (r: Option<Binary32>)
        ensures
            if self.has_manager() {
                r == Some(
                    binary32::clamped(
                        volume,
                        Binary32 { bits: binary32::ZERO },
                        Binary32 { bits: binary32::ONE },
                    ),
                )
            } else {
                r is None
            },
    {
        let v = volume.clamp_to(
            Binary32 { bits: binary32::ZERO },
            Binary32 { bits: binary32::ONE },
        );
        if !self.has_manager {
            return None;
        }
        Some(v)
    }

    /// The muting to set; nothing to do without an audio device.
    pub fn set_process_mute(&self, mute: bool) -> (r: Option<bool>)
        ensures
            r == if self.has_manager() {
                Some(mute)
            } else {
                None
            },
    {
        if self.has_manager {
            Some(mute)
        } else {
            None
        }
    }

    /// The volume where it is known without asking the system: 0 without an audio device.
    pub fn get_process_volume(&self) -> (r: Option<Binary32>)
        ensures
            r == if self.has_manager() {
                None
            } else {
                Some(Binary32 { bits: binary32::ZERO })
            },
    {
        if self.has_manager {
            None
        } else {
            Some(Binary32 { bits: binary32::ZERO })
        }
    }

    /// The muting where it is known without asking the system: off without an audio device.
    pub fn get_process_mute(&self) -> (r: Option<bool>)
        ensures
            r == if self.has_manager() {
                None
            } else {
                Some(false)
            },
    {
        if self.has_manager {
            None
        } else {
            Some(false)
        }
    }

    /// Goes through all sessions, if there is an audio device.
    fn enumerate(&self, attempt: &mut SessionAttempt) -> (r: AttemptNext)
        requires
            self.wf(),
        ensures
            attempt_state(*self, *final(attempt)) == attempt_state(
                *self,
                *old(attempt),
            ).enumerating(),
            final(attempt).wf(),
            r == AttemptNext::Go(final(attempt).stage()),
    {
        if self.has_manager {
            attempt.go(AttemptStage::Count)
        } else {
            attempt.fail(
                MirrorStarError::AudioControl(String::from_str("Session manager 未初始化")),
            )
        }
    }

    /// Drops the sessions of ended processes, if sessions are kept, then goes through all.
    fn search(&self, attempt: &mut SessionAttempt) -> (r: AttemptNext)
        requires
            self.wf(),
        ensures
            attempt_state(*self, *final(attempt)) == attempt_state(
                *self,
                *old(attempt),
            ).searching(),
            final(attempt).wf(),
            r == AttemptNext::Go(final(attempt).stage()),
    {
        proof {
            self.cache@.unique_seq_to_set();
        }
        if self.cache.len() > 0 {
            attempt.go(AttemptStage::CheckRunning)
        } else {
            self.enumerate(attempt)
        }
    }

    /// Starts an attempt to use the session of process `pid`.
    pub fn with_session_once(&self, pid: u32) -> (r: (SessionAttempt, AttemptNext))
        requires
            self.wf(),
        ensures
            r.0.wf(),
            attempt_state(*self, r.0) == attempt_start(
                (AttemptState {
                    pid,
                    stage: AttemptStage::CheckCached,
                    index: 0,
                    count: 0,
                    error: None,
                    has_manager: self.has_manager(),
                    cache: self.cache(),
                }),
            ),
            r.1 == AttemptNext::Go(r.0.stage()),
    {
        let mut attempt = SessionAttempt {
            pid,
            stage: AttemptStage::CheckCached,
            index: 0,
            count: 0,
            error: None,
        };
        if self.is_cached(pid) {
            return (attempt, AttemptNext::Go(AttemptStage::CheckCached));
        }
        let next = self.search(&mut attempt);
        (attempt, next)
    }

    /// Takes the report on a step of an attempt.
    pub fn attempt_step(&mut self, attempt: &mut SessionAttempt, event: AttemptEvent) -> (r:
        AttemptNext)
        requires
            old(self).wf(),
            old(attempt).wf(),
            attempt_fits(old(attempt).stage(), event, old(self).cache_order().len()),
        ensures
            final(self).wf(),
            final(attempt).wf() || !(r is Go),
            ({
                let (state, outcome) = attempt_step(
                    attempt_state(*old(self), *old(attempt)),
                    old(self).cache_order(),
                    event,
                );
                match outcome {
                    AttemptOutcome::Go => {
                        &&& r == AttemptNext::Go(state.stage)
                        &&& attempt_state(*final(self), *final(attempt)) == state
                    },
                    AttemptOutcome::Succeeded => {
                        &&& r is Succeeded
                        &&& final(self).cache() == state.cache
                        &&& final(self).has_manager() == state.has_manager
                    },
                    AttemptOutcome::Failed(f) => {
                        &&& r matches AttemptNext::Failed(e) && e@ == f
                        &&& final(self).cache() == state.cache
                        &&& final(self).has_manager() == state.has_manager
                    },
                }
            }),
    {
        match event {
            AttemptEvent::Owner(owner) => {
                let own = match owner {
                    Some(p) => p == attempt.pid,
                    None => false,
                };
                assert(own == (owner == Some(attempt.pid)));
                if attempt.stage == AttemptStage::CheckCached {
                    if own {
                        return attempt.go(AttemptStage::UseCached);
                    }
                    self.cache = without(&self.cache, attempt.pid);
                    return self.search(attempt);
                }
                if own {
                    if !contains_pid(&self.cache, attempt.pid) {
                        let ghost before = self.cache@;
                        self.cache.push(attempt.pid);
                        proof {
                            assert(self.cache@ == before.push(attempt.pid));
                            lemma_push_contains(before, attempt.pid);
                            assert(self.cache@.to_set() =~= before.to_set().insert(attempt.pid));
                        }
                    } else {
                        assert(self.cache@.to_set().insert(attempt.pid) =~= self.cache@.to_set());
                    }
                    return attempt.go(AttemptStage::UseFound);
                }
                if attempt.index + 1 < attempt.count {
                    attempt.index = attempt.index + 1;
                    return attempt.go(AttemptStage::Look);
                }
                attempt.fail_not_found()
            },
            AttemptEvent::Used(Ok(_)) => AttemptNext::Succeeded,
            AttemptEvent::Used(Err(e)) => attempt.fail(e),
            AttemptEvent::Running(running) => {
                let stale = collect_stale_pids(self.cache.as_slice(), running.as_slice());
                let ghost order = self.cache@;
                let mut kept: Vec<u32> = self.cache.clone();
                assert(kept@ =~= order);
                let mut i: usize = 0;
                assert(stale@.take(0).to_set() =~= Set::<u32>::empty());
                while i < stale.len()
                    invariant
                        i <= stale.len(),
                        kept@.no_duplicates(),
                        kept@.to_set() == order.to_set().difference(stale@.take(i as int).to_set()),
                    decreases stale.len() - i,
                {
                    let p = stale[i];
                    let ghost before = kept@.to_set();
                    kept = without(&kept, p);
                    proof {
                        let a = stale@.take(i as int);
                        let b = stale@.take(i + 1);
                        assert(b =~= a.push(p));
                        lemma_push_contains(a, p);
                        assert(kept@.to_set() =~= order.to_set().difference(b.to_set()));
                    }
                    i += 1;
                }
                assert(stale@.take(i as int) =~= stale@);
                self.cache = kept;
                self.enumerate(attempt)
            },
            AttemptEvent::Counted(Err(t)) => attempt.fail(MirrorStarError::Win32(t)),
            AttemptEvent::Counted(Ok(n)) => {
                if n > 0 {
                    attempt.index = 0;
                    attempt.count = n;
                    attempt.go(AttemptStage::Look)
                } else {
                    attempt.fail_not_found()
                }
            },
            AttemptEvent::Alive(alive) => {
                if !alive {
                    self.cache = without(&self.cache, attempt.pid);
                }
                match attempt.error.take() {
                    Some(e) => AttemptNext::Failed(e),
                    None => AttemptNext::Succeeded,
                }
            },
        }
    }
}

/// Which attempt to use a session this is.
#[derive(Debug)]
pub enum SessionCall {
    /// The first.
    First,
    /// The second, after the first failed with this error.
    Second(MirrorStarError),
}

/// What to do after an attempt.
#[derive(Debug)]
pub enum CallStep {
    /// Look up the audio device again, then try once more; the attempt failed with this.
    Refresh(MirrorStarError),
    /// Done, with this result.
    Finished(Result<(), MirrorStarError>),
}

/// What to do after an attempt to use a session: a first failure may come from a device
/// that is gone, so the device is looked up again and the attempt repeated once. If
/// that fails too, the first failure is reported.
pub fn with_session(call: SessionCall, result: Result<(), MirrorStarError>) -> (r: CallStep)
    ensures
        match (result, call) {
            (Ok(_), _) => r matches CallStep::Finished(Ok(_)),
            (Err(e), SessionCall::First) => r == CallStep::Refresh(e),
            (Err(_), SessionCall::Second(first)) => r matches CallStep::Finished(Err(e)) && e
                == first,
        },
{
    match result {
        Ok(_) => CallStep::Finished(Ok(())),
        Err(e) => match call {
            SessionCall::First => CallStep::Refresh(e),
            SessionCall::Second(first) => CallStep::Finished(Err(first)),
        },
    }
}

/// Goes on once the audio device was looked up again: with the second attempt, or, if
/// that failed, with the first failure.
pub fn after_refresh(first: MirrorStarError, refreshed: bool) -> (r: Result<
    SessionCall,
    MirrorStarError,
>)
    ensures
        if refreshed {
            r == Ok::<SessionCall, MirrorStarError>(SessionCall::Second(first))
        } else {
            r == Err::<SessionCall, MirrorStarError>(first)
        },
{
    if refreshed {
        Ok(SessionCall::Second(first))
    } else {
        Err(first)
    }
}

/// A session is used only after it told that it belongs to the process: no other step
/// leads to using one.
pub proof fn law_session_used_only_if_owned(s: AttemptState, order: Seq<u32>, event: AttemptEvent)
    requires
        attempt_fits(s.stage, event, order.len()),
    ensures
        ({
            let (next, outcome) = attempt_step(s, order, event);
            outcome is Go && (next.stage == AttemptStage::UseCached || next.stage
                == AttemptStage::UseFound) ==> event == AttemptEvent::Owner(Some(s.pid))
        }),
{
}

/// A failed attempt leaves no session of a process that has ended.
pub proof fn law_dead_process_forgotten(s: AttemptState, order: Seq<u32>)
    requires
        s.stage == AttemptStage::CheckAlive,
        s.error is Some,
    ensures
        attempt_step(s, order, AttemptEvent::Alive(false)).1 == AttemptOutcome::Failed(s.error->0),
        !attempt_step(s, order, AttemptEvent::Alive(false)).0.cache.contains(s.pid),
{
}

/// Before all sessions are gone through, exactly the sessions of processes that do not run
/// any more are dropped.
pub proof fn law_stale_sessions_dropped(
    s: AttemptState,
    order: Seq<u32>,
    running: Vec<bool>,
    pid: u32,
)
    requires
        s.stage == AttemptStage::CheckRunning,
        s.cache == order.to_set(),
        order.no_duplicates(),
        running@.len() == order.len(),
    ensures
        attempt_step(s, order, AttemptEvent::Running(running)).0.cache.contains(pid)
            <==> exists|i: int| 0 <= i < order.len() && #[trigger] order[i] == pid && running@[i],
{
    lemma_stale(order, running@, pid);
    if order.contains(pid) {
        let i = choose|i: int| 0 <= i < order.len() && order[i] == pid;
        assert(order[i] == pid);
        if exists|j: int| 0 <= j < order.len() && #[trigger] order[j] == pid && !running@[j] {
            let j = choose|j: int|
                0 <= j < order.len() && #[trigger] order[j] == pid && !running@[j];
            assert(i == j);
        }
    }
}

/// Which processes are stale is told of each one by itself, in order: the stale ones of a
/// list are those of its first part and then those of the rest, and of a single process it
/// depends only on whether that process runs.
pub proof fn law_stale_in_order(a: Seq<u32>, ra: Seq<bool>, b: Seq<u32>, rb: Seq<bool>, pid: u32)
    requires
        a.len() == ra.len(),
        b.len() == rb.len(),
    ensures
        stale_of(a + b, ra + rb) == stale_of(a, ra) + stale_of(b, rb),
        stale_of(seq![pid], seq![true]) == Seq::<u32>::empty(),
        stale_of(seq![pid], seq![false]) == seq![pid],
    decreases b.len(),
{
    assert(seq![pid].drop_last() =~= Seq::<u32>::empty());
    assert(stale_of(Seq::<u32>::empty(), seq![true]) =~= Seq::<u32>::empty());
    assert(stale_of(Seq::<u32>::empty(), seq![false]) =~= Seq::<u32>::empty());
    assert(stale_of(seq![pid], seq![false]) =~= seq![pid]);
    if b.len() == 0 {
        assert(a + b =~= a);
        assert(ra + rb =~= ra);
        assert(stale_of(a, ra) + stale_of(b, rb) =~= stale_of(a, ra));
    } else {
        let c = b.drop_last();
        law_stale_in_order(a, ra, c, rb.drop_last(), pid);
        assert((a + b).drop_last() =~= a + c);
        lemma_stale_local(a + c, ra + rb, ra + rb.drop_last());
        lemma_stale_local(c, rb, rb.drop_last());
        assert(stale_of(a + b, ra + rb) =~= stale_of(a, ra) + stale_of(b, rb));
    }
}

/// An attempt starts with the session that is kept for the process, if there is one. If none
/// is, sessions of ended processes are dropped first where any sessions are kept; else all
/// sessions are counted, or the attempt fails if there is no audio device. No session is
/// dropped yet.
pub proof fn law_attempt_starts(s: AttemptState)
    requires
        s.cache.finite(),
    ensures
        ({
            let start = attempt_start(s);
            &&& start.pid == s.pid && start.cache == s.cache && start.has_manager == s.has_manager
            &&& start.stage == AttemptStage::CheckCached <==> s.cache.contains(s.pid)
            &&& start.stage == AttemptStage::CheckRunning <==> !s.cache.contains(s.pid) && exists|
                p: u32,
            | #[trigger]
                s.cache.contains(p)
            &&& start.stage == AttemptStage::Count <==> s.has_manager && forall|p: u32|
                !(#[trigger] s.cache.contains(p))
            &&& start.stage == AttemptStage::CheckAlive ==> !s.has_manager && start.error == Some(
                (ErrorKind::AudioControl, "Session manager 未初始化"@),
            )
            &&& start.stage != AttemptStage::UseCached && start.stage != AttemptStage::UseFound
                && start.stage != AttemptStage::Look
        }),
{
    if s.cache.len() == 0 {
        assert(s.cache =~= Set::<u32>::empty());
    } else {
        let p = s.cache.choose();
        assert(s.cache.contains(p));
    }
}

/// The session that is kept is used if it says that it belongs to the process. If it belongs
/// to another one or does not tell, it is dropped, and only it, and the search goes on
/// without it.
pub proof fn law_kept_session_checked(s: AttemptState, order: Seq<u32>, owner: Option<u32>)
    requires
        s.stage == AttemptStage::CheckCached,
        s.cache.finite(),
    ensures
        ({
            let (next, outcome) = attempt_step(s, order, AttemptEvent::Owner(owner));
            &&& outcome is Go
            &&& owner == Some(s.pid) ==> next.stage == AttemptStage::UseCached && next.cache
                == s.cache
            &&& owner != Some(s.pid) ==> {
                &&& forall|p: u32| #[trigger]
                    next.cache.contains(p) <==> p != s.pid && s.cache.contains(p)
                &&& next.stage == AttemptStage::CheckRunning || next.stage == AttemptStage::Count
                    || (next.stage == AttemptStage::CheckAlive && !s.has_manager)
                &&& next.stage == AttemptStage::CheckRunning <==> exists|p: u32|
                    p != s.pid && #[trigger] s.cache.contains(p)
            }
        }),
{
    if owner != Some(s.pid) {
        let left = s.cache.remove(s.pid);
        if left.len() == 0 {
            assert(left =~= Set::<u32>::empty());
            assert forall|p: u32| p != s.pid implies !(#[trigger] s.cache.contains(p)) by {
                assert(!left.contains(p));
            }
        } else {
            let p = left.choose();
            assert(left.contains(p));
            assert(s.cache.contains(p));
        }
    }
}

/// After sessions of ended processes were dropped, the sessions are counted, or the attempt
/// fails if there is no audio device.
pub proof fn law_search_goes_on(s: AttemptState, order: Seq<u32>, running: Vec<bool>)
    requires
        s.stage == AttemptStage::CheckRunning,
    ensures
        ({
            let (next, outcome) = attempt_step(s, order, AttemptEvent::Running(running));
            &&& outcome is Go
            &&& next.pid == s.pid
            &&& s.has_manager ==> next.stage == AttemptStage::Count
            &&& !s.has_manager ==> next.stage == AttemptStage::CheckAlive && next.error == Some(
                (ErrorKind::AudioControl, "Session manager 未初始化"@),
            )
        }),
{
}

/// What using a session leads to is what is reported: success at once, and a failure, in its
/// own words, once it is known whether the process is alive. Only if it is not, its session
/// is dropped. The same holds of a count of the sessions that failed.
pub proof fn law_failure_reported(
    s: AttemptState,
    order: Seq<u32>,
    error: MirrorStarError,
    words: String,
    alive: bool,
)
    ensures
        s.stage == AttemptStage::UseCached || s.stage == AttemptStage::UseFound ==> {
            &&& attempt_step(s, order, AttemptEvent::Used(Ok(()))).1 is Succeeded
            &&& attempt_step(s, order, AttemptEvent::Used(Ok(()))).0.cache == s.cache
            &&& attempt_step(s, order, AttemptEvent::Used(Err(error))).1 is Go
            &&& ({
                let failed = attempt_step(s, order, AttemptEvent::Used(Err(error))).0;
                let end = attempt_step(failed, order, AttemptEvent::Alive(alive));
                &&& failed.stage == AttemptStage::CheckAlive
                &&& end.1 == AttemptOutcome::Failed(error@)
                &&& forall|p: u32| #[trigger]
                    end.0.cache.contains(p) <==> s.cache.contains(p) && (alive || p != s.pid)
            })
        },
        s.stage == AttemptStage::Count ==> {
            let failed = attempt_step(s, order, AttemptEvent::Counted(Err(words))).0;
            let end = attempt_step(failed, order, AttemptEvent::Alive(alive));
            &&& failed.stage == AttemptStage::CheckAlive
            &&& end.1 == AttemptOutcome::Failed((ErrorKind::Win32, words@))
            &&& forall|p: u32| #[trigger]
                end.0.cache.contains(p) <==> s.cache.contains(p) && (alive || p != s.pid)
        },
{
}

} // verus!
