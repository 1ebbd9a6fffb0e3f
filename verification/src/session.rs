//! The session actor: the one owner of the live helper chain. It decides,
//! for every event, which companions to kill, what to log, and when the
//! single `vpn-disconnected` event leaves — the surrounding application
//! only carries those decisions out.

use vstd::prelude::*;
use vstd::string::StringSliceAdditionalSpecFns;

verus! {

/// The role a chain member plays.
#[derive(PartialEq, Eq, Structural, Clone, Copy, Debug)]
pub enum Role {
    Xray,
    SingBox,
    DnsttClient,
    SshTunnel,
    OpenVpn,
    NativeVpn,
}

/// One member of the live chain.
#[derive(PartialEq, Eq, Structural, Clone, Copy, Debug)]
pub struct Member {
    pub role: Role,
    pub pid: u32,
    pub living: bool,
}

/// The live session: its members and whether the terminal event has left.
pub struct Session {
    pub members: Vec<Member>,
    pub disconnect_emitted: bool,
}

/// The mathematical shape of a session.
pub ghost struct SessionV {
    pub members: Seq<Member>,
    pub disconnect_emitted: bool,
}

impl Session {
    pub open spec fn view(&self) -> SessionV {
        SessionV { members: self.members@, disconnect_emitted: self.disconnect_emitted }
    }
}

/// One step the application must carry out, in order, after an event.
#[derive(PartialEq, Eq, Structural, Clone, Copy, Debug)]
pub enum Action {
    /// Join the exited member's output-reader threads, so that every line
    /// it ever wrote is in the log.
    JoinReaders(usize),
    /// Write the member's exit record to the log.
    LogExit(usize),
    /// Force-kill a companion process.
    Kill(u32),
    /// Emit the terminal `vpn-disconnected` event.
    EmitDisconnected,
}

/// The kill steps an exit at `idx` demands: one per other member still
/// living, in member order.
pub open spec fn spec_kills(members: Seq<Member>, idx: int) -> Seq<Action>
    decreases members.len(),
{
    if members.len() == 0 {
        Seq::empty()
    } else {
        spec_kills(members.drop_last(), idx) + (if members.len() - 1 != idx
            && members.last().living {
            seq![Action::Kill(members.last().pid)]
        } else {
            Seq::empty()
        })
    }
}

/// The member list after an exit at `idx`: the dead member and every
/// killed companion are no longer living.
pub open spec fn spec_all_dead(members: Seq<Member>) -> Seq<Member> {
    Seq::new(members.len(), |i: int| Member { living: false, ..members[i] })
}

/// The whole ordered plan for an exit at `idx`: drain the output readers
/// first, then log the exit, then kill the companions, and only then —
/// and only if no earlier exit already did — emit the terminal event.
pub open spec fn spec_exit_plan(s: SessionV, idx: int) -> Seq<Action> {
    seq![Action::JoinReaders(idx as usize), Action::LogExit(idx as usize)] + spec_kills(
        s.members,
        idx,
    ) + (if !s.disconnect_emitted {
        seq![Action::EmitDisconnected]
    } else {
        Seq::empty()
    })
}

/// The session after an exit at `idx` was handled.
pub open spec fn spec_after_exit(s: SessionV, idx: int) -> SessionV {
    SessionV { members: spec_all_dead(s.members), disconnect_emitted: true }
}

impl Session {
    /// Handles the exit of member `idx`: returns the ordered action plan
    /// and records that every member is down and the event spoken for.
    pub fn on_member_exit(&mut self, idx: usize) -> (r: Vec<Action>)
        requires
            idx < old(self)@.members.len(),
        ensures
            r@ == spec_exit_plan(old(self)@, idx as int),
            final(self)@ == spec_after_exit(old(self)@, idx as int),
    {
        let ghost oldmembers = self.members@;
        let mut actions: Vec<Action> = Vec::new();
        actions.push(Action::JoinReaders(idx));
        actions.push(Action::LogExit(idx));
        let mut i: usize = 0;
        while i < self.members.len()
            invariant
                i <= self.members@.len(),
                self.members@ == oldmembers,
                idx < oldmembers.len(),
                actions@ == seq![
                    Action::JoinReaders(idx as usize),
                    Action::LogExit(idx as usize),
                ] + spec_kills(oldmembers.subrange(0, i as int), idx as int),
            decreases self.members@.len() - i,
        {
            proof {
                let pre = oldmembers.subrange(0, i + 1);
                assert(pre.drop_last() == oldmembers.subrange(0, i as int));
                assert(pre.last() == oldmembers[i as int]);
            }
            if i != idx && self.members[i].living {
                actions.push(Action::Kill(self.members[i].pid));
            }
            i = i + 1;
        }
        proof {
            assert(oldmembers.subrange(0, oldmembers.len() as int) == oldmembers);
        }
        if !self.disconnect_emitted {
            actions.push(Action::EmitDisconnected);
        } else {
            proof {
                assert(actions@ =~= actions@ + Seq::<Action>::empty());
            }
        }
        let mut j: usize = 0;
        while j < self.members.len()
            invariant
                j <= self.members@.len(),
                self.members@.len() == oldmembers.len(),
                forall|k: int|
                    0 <= k < j ==> self.members@[k] == (Member {
                        living: false,
                        ..oldmembers[k]
                    }),
                forall|k: int| j <= k < oldmembers.len() ==> self.members@[k] == oldmembers[k],
            decreases self.members@.len() - j,
        {
            let m = self.members[j];
            self.members.set(j, Member { role: m.role, pid: m.pid, living: false });
            j = j + 1;
        }
        self.disconnect_emitted = true;
        proof {
            assert(self.members@ =~= spec_all_dead(oldmembers));
        }
        actions
    }
}

/// Every action demanded by the companion kills is a kill.
pub proof fn lemma_kills_only_kill(members: Seq<Member>, idx: int)
    ensures
        forall|k: int|
            0 <= k < spec_kills(members, idx).len() ==> #[trigger] spec_kills(
                members,
                idx,
            )[k] is Kill,
    decreases members.len(),
{
    if members.len() > 0 {
        lemma_kills_only_kill(members.drop_last(), idx);
    }
}

/// Every living companion of the exited member gets a kill action.
pub proof fn lemma_exit_kills_companions(members: Seq<Member>, idx: int)
    ensures
        forall|k: int|
            0 <= k < members.len() && k != idx && members[k].living ==> spec_kills(
                members,
                idx,
            ).contains(Action::Kill(members[k].pid)),
    decreases members.len(),
{
    if members.len() > 0 {
        lemma_exit_kills_companions(members.drop_last(), idx);
        let n = members.len() - 1;
        assert forall|k: int|
            0 <= k < members.len() && k != idx && members[k].living implies spec_kills(
            members,
            idx,
        ).contains(Action::Kill(members[k].pid)) by {
            if k < n {
                assert(members.drop_last()[k] == members[k]);
                let pre = spec_kills(members.drop_last(), idx);
                assert(pre.contains(Action::Kill(members[k].pid)));
                let w = choose|w: int| 0 <= w < pre.len() && pre[w] == Action::Kill(
                    members[k].pid,
                );
                assert(spec_kills(members, idx)[w] == Action::Kill(members[k].pid));
            } else {
                let plan = spec_kills(members, idx);
                assert(plan.last() == Action::Kill(members[k].pid));
            }
        }
    }
}

/// In every exit plan the reader join comes first, and the terminal event,
/// when the plan holds one at all, comes last — strictly after the join
/// and after every kill. So every line a member ever wrote is in the log
/// before `vpn-disconnected` is seen, and a plan emits at most once.
pub proof fn lemma_flush_before_disconnect(s: SessionV, idx: int)
    ensures
        ({
            let plan = spec_exit_plan(s, idx);
            &&& plan[0] == Action::JoinReaders(idx as usize)
            &&& forall|j: int|
                0 <= j < plan.len() ==> ((#[trigger] plan[j]) == Action::EmitDisconnected <==> (
                !s.disconnect_emitted && j == plan.len() - 1))
        }),
{
    lemma_kills_only_kill(s.members, idx);
}

/// The number of terminal events across a whole run of exit events.
pub open spec fn spec_emit_count(s: SessionV, events: Seq<int>) -> nat
    decreases events.len(),
{
    if events.len() == 0 {
        0
    } else {
        ((if !s.disconnect_emitted {
            1nat
        } else {
            0nat
        }) + spec_emit_count(spec_after_exit(s, events[0]), events.drop_first())) as nat
    }
}

/// Once the terminal event has left, no exit emits another.
pub proof fn lemma_no_emit_after_first(s: SessionV, events: Seq<int>)
    requires
        s.disconnect_emitted,
    ensures
        spec_emit_count(s, events) == 0,
    decreases events.len(),
{
    if events.len() > 0 {
        lemma_no_emit_after_first(spec_after_exit(s, events[0]), events.drop_first());
    }
}

/// In a session whose terminal event has not left yet, any non-empty run
/// of member exits emits `vpn-disconnected` exactly once: the first exit
/// emits, every later one finds the flag set.
pub proof fn lemma_single_disconnect(s: SessionV, events: Seq<int>)
    requires
        !s.disconnect_emitted,
        events.len() >= 1,
    ensures
        spec_emit_count(s, events) == 1,
{
    lemma_no_emit_after_first(spec_after_exit(s, events[0]), events.drop_first());
}

// ---------------------------------------------------------------------------
// Stopping
// ---------------------------------------------------------------------------

/// The operating systems the orchestrator runs on.
#[derive(PartialEq, Eq, Structural, Clone, Copy, Debug)]
pub enum Os {
    Windows,
    Linux,
    MacOs,
}

/// One step of the best-effort teardown sweep.
pub enum StopAction {
    /// Force-kill every process of this image name.
    KillByName(Vec<u8>),
    /// Force-kill every process whose command line matches this pattern.
    KillByPattern(Vec<u8>),
    /// Disconnect and remove this native VPN profile.
    NativeDisconnect(Vec<u8>),
}

/// The mathematical shape of a teardown step.
pub ghost enum StopActionV {
    KillByName(Seq<u8>),
    KillByPattern(Seq<u8>),
    NativeDisconnect(Seq<u8>),
}

impl StopAction {
    pub open spec fn view(&self) -> StopActionV {
        match self {
            StopAction::KillByName(n) => StopActionV::KillByName(n@),
            StopAction::KillByPattern(p) => StopActionV::KillByPattern(p@),
            StopAction::NativeDisconnect(n) => StopActionV::NativeDisconnect(n@),
        }
    }
}

/// The views of a teardown plan.
pub open spec fn spec_view_stop_plan(plan: Seq<StopAction>) -> Seq<StopActionV> {
    Seq::new(plan.len(), |i: int| plan[i].view())
}

/// The fixed teardown sweep for `os`: every helper binary this system
/// ever launches, and both native profile names.
pub open spec fn spec_stop_plan(os: Os) -> Seq<StopActionV> {
    match os {
        Os::Windows => seq![
            StopActionV::KillByName(("xray.exe").spec_bytes()),
            StopActionV::KillByName(("sing-box.exe").spec_bytes()),
            StopActionV::KillByName(("dnstt-client.exe").spec_bytes()),
            StopActionV::KillByName(("plink.exe").spec_bytes()),
            StopActionV::KillByName(("openvpn.exe").spec_bytes()),
            StopActionV::NativeDisconnect(("CandyConnect-L2TP").spec_bytes()),
            StopActionV::NativeDisconnect(("CandyConnect-IKEv2").spec_bytes()),
        ],
        Os::Linux => seq![
            StopActionV::KillByName(("xray").spec_bytes()),
            StopActionV::KillByName(("sing-box").spec_bytes()),
            StopActionV::KillByName(("dnstt-client").spec_bytes()),
            StopActionV::KillByName(("openvpn").spec_bytes()),
            StopActionV::KillByName(("xl2tpd").spec_bytes()),
            StopActionV::KillByPattern(("sshpass.*ssh.*-D").spec_bytes()),
            StopActionV::NativeDisconnect(("CandyConnect-L2TP").spec_bytes()),
            StopActionV::NativeDisconnect(("CandyConnect-IKEv2").spec_bytes()),
        ],
        Os::MacOs => seq![
            StopActionV::KillByName(("xray").spec_bytes()),
            StopActionV::KillByName(("sing-box").spec_bytes()),
            StopActionV::KillByName(("dnstt-client").spec_bytes()),
            StopActionV::KillByName(("openvpn").spec_bytes()),
            StopActionV::KillByPattern(("sshpass.*ssh.*-D").spec_bytes()),
            StopActionV::NativeDisconnect(("CandyConnect-L2TP").spec_bytes()),
            StopActionV::NativeDisconnect(("CandyConnect-IKEv2").spec_bytes()),
        ],
    }
}

/// Builds the teardown sweep for `os`. It is the same plan every time and
/// covers every helper the orchestrator ever launches; carrying it out
/// cannot fail, so stopping always succeeds, however often it is asked.
pub fn stop_vpn_plan(os: Os) -> (r: Vec<StopAction>)
    ensures
        spec_view_stop_plan(r@) == spec_stop_plan(os),
{
    let mut plan: Vec<StopAction> = Vec::new();
    match os {
        Os::Windows => {
            plan.push(StopAction::KillByName(crate::textutil::bytes_of("xray.exe")));
            plan.push(StopAction::KillByName(crate::textutil::bytes_of("sing-box.exe")));
            plan.push(StopAction::KillByName(crate::textutil::bytes_of("dnstt-client.exe")));
            plan.push(StopAction::KillByName(crate::textutil::bytes_of("plink.exe")));
            plan.push(StopAction::KillByName(crate::textutil::bytes_of("openvpn.exe")));
            plan.push(
                StopAction::NativeDisconnect(crate::textutil::bytes_of("CandyConnect-L2TP")),
            );
            plan.push(
                StopAction::NativeDisconnect(crate::textutil::bytes_of("CandyConnect-IKEv2")),
            );
        },
        Os::Linux => {
            plan.push(StopAction::KillByName(crate::textutil::bytes_of("xray")));
            plan.push(StopAction::KillByName(crate::textutil::bytes_of("sing-box")));
            plan.push(StopAction::KillByName(crate::textutil::bytes_of("dnstt-client")));
            plan.push(StopAction::KillByName(crate::textutil::bytes_of("openvpn")));
            plan.push(StopAction::KillByName(crate::textutil::bytes_of("xl2tpd")));
            plan.push(StopAction::KillByPattern(crate::textutil::bytes_of("sshpass.*ssh.*-D")));
            plan.push(
                StopAction::NativeDisconnect(crate::textutil::bytes_of("CandyConnect-L2TP")),
            );
            plan.push(
                StopAction::NativeDisconnect(crate::textutil::bytes_of("CandyConnect-IKEv2")),
            );
        },
        Os::MacOs => {
            plan.push(StopAction::KillByName(crate::textutil::bytes_of("xray")));
            plan.push(StopAction::KillByName(crate::textutil::bytes_of("sing-box")));
            plan.push(StopAction::KillByName(crate::textutil::bytes_of("dnstt-client")));
            plan.push(StopAction::KillByName(crate::textutil::bytes_of("openvpn")));
            plan.push(StopAction::KillByPattern(crate::textutil::bytes_of("sshpass.*ssh.*-D")));
            plan.push(
                StopAction::NativeDisconnect(crate::textutil::bytes_of("CandyConnect-L2TP")),
            );
            plan.push(
                StopAction::NativeDisconnect(crate::textutil::bytes_of("CandyConnect-IKEv2")),
            );
        },
    }
    proof {
        assert(spec_view_stop_plan(plan@) =~= spec_stop_plan(os));
    }
    plan
}

/// The session after a stop: every member down, the event flag as it was
/// (watchers, not the stop itself, own the terminal event).
pub open spec fn spec_stopped(s: SessionV) -> SessionV {
    SessionV { members: spec_all_dead(s.members), disconnect_emitted: s.disconnect_emitted }
}

impl Session {
    /// Records a stop: every member is down. Stopping never fails.
    pub fn stop(&mut self)
        ensures
            final(self)@ == spec_stopped(old(self)@),
    {
        let ghost oldmembers = self.members@;
        let mut j: usize = 0;
        while j < self.members.len()
            invariant
                j <= self.members@.len(),
                self.members@.len() == oldmembers.len(),
                self.disconnect_emitted == old(self).disconnect_emitted,
                forall|k: int|
                    0 <= k < j ==> self.members@[k] == (Member {
                        living: false,
                        ..oldmembers[k]
                    }),
                forall|k: int| j <= k < oldmembers.len() ==> self.members@[k] == oldmembers[k],
            decreases self.members@.len() - j,
        {
            let m = self.members[j];
            self.members.set(j, Member { role: m.role, pid: m.pid, living: false });
            j = j + 1;
        }
        proof {
            assert(self.members@ =~= spec_all_dead(oldmembers));
        }
    }
}

/// Stopping twice is the same as stopping once: the sweep plan is a
/// constant and the session state is a fixed point of `spec_stopped`.
pub proof fn lemma_stop_idempotent(s: SessionV)
    ensures
        spec_stopped(spec_stopped(s)) == spec_stopped(s),
{
    assert(spec_all_dead(spec_all_dead(s.members)) =~= spec_all_dead(s.members));
}

// ---------------------------------------------------------------------------
// Starting a chain
// ---------------------------------------------------------------------------

/// What became of one attempted chain member: its spawn failed, it exited
/// inside its health-check window with a status, or it was still running
/// when the window closed.
#[derive(PartialEq, Eq, Structural, Clone, Copy, Debug)]
pub enum SpawnOutcome {
    FailedToSpawn,
    ExitedEarly(i32),
    Healthy(u32),
}

/// The process id of a healthy outcome.
pub open spec fn spec_pid_of(o: SpawnOutcome) -> u32 {
    match o {
        SpawnOutcome::Healthy(pid) => pid,
        _ => 0,
    }
}

/// The members of a fully started chain.
pub open spec fn spec_started_members(roles: Seq<Role>, outcomes: Seq<SpawnOutcome>) -> Seq<
    Member,
> {
    Seq::new(roles.len(), |i: int| Member {
        role: roles[i],
        pid: spec_pid_of(outcomes[i]),
        living: true,
    })
}

/// A start that was rolled back: which member failed, why, and the kill
/// list for everything started before it.
pub struct StartFailure {
    pub failed_index: usize,
    pub error: crate::errors::Error,
    pub kills: Vec<u32>,
}

/// The outcome of composing a chain.
pub enum StartResult {
    Started(Session),
    Failed(StartFailure),
}

/// The helper binary name of a role, as logged and reported.
pub fn role_name(r: Role) -> (s: &'static str)
    ensures
        s.spec_bytes() == spec_role_name(r),
{
    match r {
        Role::Xray => "xray",
        Role::SingBox => "sing-box",
        Role::DnsttClient => "dnstt-client",
        Role::SshTunnel => "ssh-tunnel",
        Role::OpenVpn => "openvpn",
        Role::NativeVpn => "native-vpn",
    }
}

/// The helper binary name of a role.
pub open spec fn spec_role_name(r: Role) -> Seq<u8> {
    match r {
        Role::Xray => ("xray").spec_bytes(),
        Role::SingBox => ("sing-box").spec_bytes(),
        Role::DnsttClient => ("dnstt-client").spec_bytes(),
        Role::SshTunnel => ("ssh-tunnel").spec_bytes(),
        Role::OpenVpn => ("openvpn").spec_bytes(),
        Role::NativeVpn => ("native-vpn").spec_bytes(),
    }
}

/// Decides what a chain start comes to, given each member's spawn and
/// health-check outcome in chain order. A chain whose members all pass
/// becomes the live session, nothing is killed and no event leaves. The
/// first member that fails rolls the start back: the result is the error
/// for that member, the kill list holds exactly the already started
/// members in order, and — unlike an exit of a live session — no
/// `vpn-disconnected` is emitted, for no session ever existed.
pub fn plan_start(roles: &Vec<Role>, outcomes: &Vec<SpawnOutcome>) -> (r: StartResult)
    requires
        roles@.len() == outcomes@.len(),
    ensures
        (forall|j: int| 0 <= j < outcomes@.len() ==> outcomes@[j] is Healthy) <==> r is Started,
        match r {
            StartResult::Started(s) => s@.members == spec_started_members(roles@, outcomes@)
                && !s@.disconnect_emitted,
            StartResult::Failed(f) => {
                &&& f.failed_index < outcomes@.len()
                &&& !(outcomes@[f.failed_index as int] is Healthy)
                &&& forall|j: int| 0 <= j < f.failed_index ==> outcomes@[j] is Healthy
                &&& f.kills@ == Seq::new(
                    f.failed_index as nat,
                    |i: int| spec_pid_of(outcomes@[i]),
                )
                &&& match outcomes@[f.failed_index as int] {
                    SpawnOutcome::FailedToSpawn => f.error matches crate::errors::Error::SpawnError(
                        n,
                    ) && n@ == spec_role_name(roles@[f.failed_index as int]),
                    SpawnOutcome::ExitedEarly(st) => f.error
                        == crate::errors::Error::HealthCheckError(st),
                    SpawnOutcome::Healthy(_) => false,
                }
            },
        },
{
    let mut i: usize = 0;
    while i < outcomes.len()
        invariant
            i <= outcomes@.len(),
            roles@.len() == outcomes@.len(),
            forall|j: int| 0 <= j < i ==> outcomes@[j] is Healthy,
        decreases outcomes@.len() - i,
    {
        match outcomes[i] {
            SpawnOutcome::Healthy(_) => {},
            SpawnOutcome::FailedToSpawn => {
                let kills = collect_pids(outcomes, i);
                let name = crate::textutil::bytes_of(role_name(roles[i]));
                return StartResult::Failed(
                    StartFailure {
                        failed_index: i,
                        error: crate::errors::Error::SpawnError(name),
                        kills,
                    },
                );
            },
            SpawnOutcome::ExitedEarly(st) => {
                let kills = collect_pids(outcomes, i);
                return StartResult::Failed(
                    StartFailure {
                        failed_index: i,
                        error: crate::errors::Error::HealthCheckError(st),
                        kills,
                    },
                );
            },
        }
        i = i + 1;
    }
    let mut members: Vec<Member> = Vec::new();
    let mut k: usize = 0;
    while k < outcomes.len()
        invariant
            k <= outcomes@.len(),
            roles@.len() == outcomes@.len(),
            forall|j: int| 0 <= j < outcomes@.len() ==> outcomes@[j] is Healthy,
            members@.len() == k,
            forall|j: int|
                0 <= j < k ==> members@[j] == (Member {
                    role: roles@[j],
                    pid: spec_pid_of(outcomes@[j]),
                    living: true,
                }),
        decreases outcomes@.len() - k,
    {
        let pid = match outcomes[k] {
            SpawnOutcome::Healthy(p) => p,
            _ => 0,
        };
        members.push(Member { role: roles[k], pid, living: true });
        k = k + 1;
    }
    proof {
        assert(members@ =~= spec_started_members(roles@, outcomes@));
    }
    StartResult::Started(Session { members, disconnect_emitted: false })
}

/// The pids of the first `upto` outcomes, in order.
fn collect_pids(outcomes: &Vec<SpawnOutcome>, upto: usize) -> (r: Vec<u32>)
    requires
        upto <= outcomes@.len(),
    ensures
        r@ == Seq::new(upto as nat, |i: int| spec_pid_of(outcomes@[i])),
{
    let mut out: Vec<u32> = Vec::new();
    let mut i: usize = 0;
    while i < upto
        invariant
            i <= upto <= outcomes@.len(),
            out@.len() == i,
            forall|j: int| 0 <= j < i ==> out@[j] == spec_pid_of(outcomes@[j]),
        decreases upto - i,
    {
        let pid = match outcomes[i] {
            SpawnOutcome::Healthy(p) => p,
            _ => 0,
        };
        out.push(pid);
        i = i + 1;
    }
    proof {
        assert(out@ =~= Seq::new(upto as nat, |i: int| spec_pid_of(outcomes@[i])));
    }
    out
}

} // verus!
