//! Keeping the hotspot up: what is done when it starts, fails, is told to read
//! its configuration again, or is told to stop.
use vstd::prelude::*;

use crate::config::{Config, ConfigView};

verus! {

/// The longest wait before the hotspot is started again, in seconds.
pub const MAX_DELAY: u64 = 30;

/// What the supervisor waits to hear.
#[derive(Debug, Clone, Copy, PartialEq, Eq, Structural)]
pub enum Phase {
    /// The signals, before the hotspot is started.
    Idle,
    /// The configuration that was read again before the hotspot is started.
    IdleReload,
    /// Whether the hotspot was started.
    Starting,
    /// The signals, while the hotspot is up, and whether it still is.
    Running,
    /// The configuration that was read again while the hotspot was up.
    RunningReload,
    /// The signals, after the hotspot went down.
    Down,
    /// Nothing any more.
    Stopped,
}

/// What the supervisor hears.
pub enum Event {
    /// The signals that came: to stop, or else to read the configuration again.
    Signals { shutdown: bool, reload: bool },
    /// The same while the hotspot is up; and, where there was none, whether
    /// `hostapd` exited.
    Running { shutdown: bool, reload: bool, exited: bool },
    /// The configuration that was read again, if it is one.
    Resolved(Option<Config>),
    /// Whether the hotspot was started.
    Started(bool),
}

/// Something that the supervisor asks for.
#[derive(Debug, Clone, Copy, PartialEq, Eq, Structural)]
pub enum Effect {
    /// Start the hotspot with the current configuration.
    StartSession,
    /// Read the configuration again.
    ResolveConfig,
    /// Tell DHCP server and DNS forwarder to stop.
    StopServices,
    /// End `hostapd` and wait for it.
    KillHostapd,
    /// Clear away what names the running `hostapd`.
    Teardown,
    /// Take address translation down.
    CleanupNat,
    /// Get ready for a new DHCP server and DNS forwarder.
    RenewServices,
    /// Wait for this many milliseconds.
    Pause(u64),
    /// Wait for this many seconds, or until told to stop.
    Backoff(u64),
}

pub struct Supervisor {
    pub cfg: Config,
    pub restart_delay: u64,
    pub phase: Phase,
}

// ---------------------------------------------------------------------------
// Model
// ---------------------------------------------------------------------------

#[verifier::ext_equal]
pub struct SupervisorView {
    pub cfg: ConfigView,
    /// How long it is waited before the next start, in seconds.
    pub restart_delay: u64,
    pub phase: Phase,
}

#[verifier::ext_equal]
pub enum EventView {
    Signals { shutdown: bool, reload: bool },
    Running { shutdown: bool, reload: bool, exited: bool },
    Resolved(Option<ConfigView>),
    Started(bool),
}

impl View for Supervisor {
    type V = SupervisorView;

    open spec fn view(&self) -> SupervisorView {
        SupervisorView {
            cfg: self.cfg@,
            restart_delay: self.restart_delay,
            phase: self.phase,
        }
    }
}

impl View for Event {
    type V = EventView;

    open spec fn view(&self) -> EventView {
        match self {
            Event::Signals { shutdown, reload } => EventView::Signals {
                shutdown: *shutdown,
                reload: *reload,
            },
            Event::Running { shutdown, reload, exited } => EventView::Running {
                shutdown: *shutdown,
                reload: *reload,
                exited: *exited,
            },
            Event::Resolved(c) => EventView::Resolved(
                match c {
                    Some(c) => Some(c@),
                    None => None,
                },
            ),
            Event::Started(ok) => EventView::Started(*ok),
        }
    }
}

/// Twice the wait, up to the longest.
pub open spec fn doubled(delay: u64) -> u64 {
    if delay * 2 <= MAX_DELAY {
        (delay * 2) as u64
    } else {
        MAX_DELAY
    }
}

/// The wait after `n` failures in a row.
pub open spec fn delay_after(n: nat) -> u64
    decreases n,
{
    if n == 0 {
        1
    } else {
        doubled(delay_after((n - 1) as nat))
    }
}

impl SupervisorView {
    /// The wait is one second at least and no longer than the longest.
    pub open spec fn wf(self) -> bool {
        1 <= self.restart_delay <= MAX_DELAY
    }

    /// The supervisor waits for an event of this kind.
    pub open spec fn awaits(self, event: EventView) -> bool {
        match self.phase {
            Phase::Idle | Phase::Down => event is Signals,
            Phase::IdleReload | Phase::RunningReload => event is Resolved,
            Phase::Starting => event is Started,
            Phase::Running => event is Running,
            Phase::Stopped => false,
        }
    }

    /// With the configuration that was read again, if it is one.
    pub open spec fn reloaded(self, cfg: Option<ConfigView>) -> SupervisorView {
        SupervisorView {
            cfg: match cfg {
                Some(c) => c,
                None => self.cfg,
            },
            ..self
        }
    }

    /// The supervisor after an event.
    pub open spec fn after(self, event: EventView) -> SupervisorView {
        match (self.phase, event) {
            (Phase::Idle, EventView::Signals { shutdown, reload }) => SupervisorView {
                phase: if shutdown {
                    Phase::Stopped
                } else if reload {
                    Phase::IdleReload
                } else {
                    Phase::Starting
                },
                ..self
            },
            (Phase::IdleReload, EventView::Resolved(cfg)) => SupervisorView {
                phase: Phase::Starting,
                ..self.reloaded(cfg)
            },
            (Phase::Starting, EventView::Started(ok)) => if ok {
                SupervisorView { phase: Phase::Running, restart_delay: 1, ..self }
            } else {
                SupervisorView { phase: Phase::Down, ..self }
            },
            (Phase::Running, EventView::Running { shutdown, reload, exited }) => SupervisorView {
                phase: if shutdown {
                    Phase::Stopped
                } else if reload {
                    Phase::RunningReload
                } else if exited {
                    Phase::Down
                } else {
                    Phase::Running
                },
                ..self
            },
            (Phase::RunningReload, EventView::Resolved(cfg)) => SupervisorView {
                phase: Phase::Down,
                ..self.reloaded(cfg)
            },
            (Phase::Down, EventView::Signals { shutdown, .. }) => if shutdown {
                SupervisorView { phase: Phase::Stopped, ..self }
            } else {
                SupervisorView {
                    phase: Phase::Idle,
                    restart_delay: doubled(self.restart_delay),
                    ..self
                }
            },
            _ => self,
        }
    }

    /// What is done at an event, in order.
    pub open spec fn effects(self, event: EventView) -> Seq<Effect> {
        match (self.phase, event) {
            (Phase::Idle, EventView::Signals { shutdown, reload }) => if shutdown {
                seq![Effect::CleanupNat]
            } else if reload {
                seq![Effect::ResolveConfig]
            } else {
                seq![Effect::StartSession]
            },
            (Phase::IdleReload, EventView::Resolved(_)) => seq![Effect::StartSession],
            (Phase::Starting, EventView::Started(ok)) => if ok {
                Seq::empty()
            } else {
                seq![Effect::RenewServices]
            },
            (Phase::Running, EventView::Running { shutdown, reload, exited }) => if shutdown {
                seq![
                    Effect::StopServices,
                    Effect::KillHostapd,
                    Effect::Teardown,
                    Effect::CleanupNat,
                ]
            } else if reload {
                seq![
                    Effect::StopServices,
                    Effect::KillHostapd,
                    Effect::Teardown,
                    Effect::ResolveConfig,
                ]
            } else if exited {
                seq![Effect::StopServices, Effect::Teardown, Effect::RenewServices]
            } else {
                seq![Effect::Pause(500)]
            },
            (Phase::RunningReload, EventView::Resolved(_)) => seq![Effect::RenewServices],
            (Phase::Down, EventView::Signals { shutdown, .. }) => if shutdown {
                seq![Effect::CleanupNat]
            } else {
                seq![Effect::Backoff(self.restart_delay)]
            },
            _ => Seq::empty(),
        }
    }
}

// ---------------------------------------------------------------------------
// Laws
// ---------------------------------------------------------------------------

/// The wait stays between one second and the longest.
pub proof fn law_delay_stays_bounded(s: SupervisorView, event: EventView)
    requires
        s.wf(),
    ensures
        s.after(event).wf(),
{
}

/// The supervisor stops exactly when it is told to, and the last thing that it
/// does is to take address translation down.
pub proof fn law_stopping_cleans_up(s: SupervisorView, event: EventView)
    requires
        s.awaits(event),
    ensures
        ({
            let told = match event {
                EventView::Signals { shutdown, .. } => shutdown,
                EventView::Running { shutdown, .. } => shutdown,
                _ => false,
            };
            &&& (s.after(event).phase == Phase::Stopped) == told
            &&& told ==> s.effects(event).len() > 0 && s.effects(event).last()
                == Effect::CleanupNat
            &&& !told ==> !s.effects(event).contains(Effect::CleanupNat)
        }),
{
    let done = s.effects(event);
    let told = match event {
        EventView::Signals { shutdown, .. } => shutdown,
        EventView::Running { shutdown, .. } => shutdown,
        _ => false,
    };
    if !told {
        assert forall|i: int| 0 <= i < done.len() implies done[i] != Effect::CleanupNat by {}
    }
}

/// A hotspot that is up is taken down before another one is started: its
/// services are stopped first, `hostapd` is ended unless it exited, and what
/// names it is cleared away.
pub proof fn law_leaving_running_stops_services(s: SupervisorView, event: EventView)
    requires
        s.phase == Phase::Running,
        s.awaits(event),
        s.after(event).phase != Phase::Running,
    ensures
        s.effects(event)[0] == Effect::StopServices,
        s.effects(event).contains(Effect::Teardown),
        !s.effects(event).contains(Effect::StartSession),
        (event matches EventView::Running { shutdown, reload, .. } && (shutdown || reload))
            ==> s.effects(event)[1] == Effect::KillHostapd,
{
    let done = s.effects(event);
    assert(done[1] == Effect::Teardown || done[2] == Effect::Teardown);
    assert forall|i: int| 0 <= i < done.len() implies done[i] != Effect::StartSession by {}
}

/// The hotspot is started on the way into the phase that waits for it, and at
/// no other time.
pub proof fn law_starts_once(s: SupervisorView, event: EventView)
    requires
        s.awaits(event),
    ensures
        s.effects(event).contains(Effect::StartSession) == (s.after(event).phase
            == Phase::Starting),
{
    let done = s.effects(event);
    if s.after(event).phase == Phase::Starting {
        assert(done[0] == Effect::StartSession);
    } else {
        assert forall|i: int| 0 <= i < done.len() implies done[i] != Effect::StartSession by {}
    }
}

/// A configuration that is none, when it is read again, changes nothing: the
/// current one stays.
pub proof fn law_failed_reload_keeps_settings(s: SupervisorView)
    requires
        s.phase == Phase::IdleReload || s.phase == Phase::RunningReload,
    ensures
        s.after(EventView::Resolved(None)).cfg == s.cfg,
{
}

/// Only a configuration that was read again changes the settings.
pub proof fn law_settings_change_by_reload_only(s: SupervisorView, event: EventView)
    ensures
        s.after(event).cfg != s.cfg ==> event == EventView::Resolved(Some(s.after(event).cfg)),
{
}

/// The wait doubles with every start that fails, up to the longest: it is 1, 2,
/// 4, 8, 16 seconds, and 30 from the sixth on.
pub proof fn law_delay_doubles(n: nat)
    ensures
        delay_after(n) == if n <= 4 {
            vstd::arithmetic::power2::pow2(n) as u64
        } else {
            MAX_DELAY
        },
    decreases n,
{
    vstd::arithmetic::power2::lemma2_to64();
    if n > 0 {
        law_delay_doubles((n - 1) as nat);
        if n <= 4 {
            vstd::arithmetic::power2::lemma_pow2_unfold(n);
        }
    }
}

/// A failed start without signals leads back to the next start after the wait,
/// which is then doubled; a start that succeeds makes it one second again.
pub proof fn law_failure_waits_and_retries(s: SupervisorView)
    requires
        s.phase == Phase::Starting,
    ensures
        ({
            let quiet = EventView::Signals { shutdown: false, reload: false };
            let down = s.after(EventView::Started(false));
            let idle = down.after(quiet);
            let again = idle.after(quiet);
            &&& down.effects(quiet) == seq![Effect::Backoff(s.restart_delay)]
            &&& idle.effects(quiet) == seq![Effect::StartSession]
            &&& again == SupervisorView { restart_delay: doubled(s.restart_delay), ..s }
        }),
        s.after(EventView::Started(true)).restart_delay == 1,
{
}

/// A configuration that is read again while the hotspot is up takes effect: the
/// hotspot is taken down, and after the wait it is started with the new
/// settings.
pub proof fn law_reload_takes_effect(s: SupervisorView, cfg: ConfigView)
    requires
        s.phase == Phase::Running,
    ensures
        ({
            let quiet = EventView::Signals { shutdown: false, reload: false };
            let told = EventView::Running { shutdown: false, reload: true, exited: false };
            let heard = s.after(told);
            let down = heard.after(EventView::Resolved(Some(cfg)));
            let idle = down.after(quiet);
            let started = idle.after(quiet);
            &&& s.effects(told).last() == Effect::ResolveConfig
            &&& s.effects(told).contains(Effect::StopServices)
            &&& s.effects(told).contains(Effect::KillHostapd)
            &&& heard.effects(EventView::Resolved(Some(cfg))) == seq![Effect::RenewServices]
            &&& down.effects(quiet) == seq![Effect::Backoff(s.restart_delay)]
            &&& idle.effects(quiet) == seq![Effect::StartSession]
            &&& started.phase == Phase::Starting
            &&& started.cfg == cfg
        }),
{
    let told = EventView::Running { shutdown: false, reload: true, exited: false };
    assert(s.effects(told)[0] == Effect::StopServices);
    assert(s.effects(told)[1] == Effect::KillHostapd);
}

/// Before a start, a configuration that is to be read again is read first, and
/// the hotspot is started with it.
pub proof fn law_reload_before_start(s: SupervisorView, cfg: ConfigView)
    requires
        s.phase == Phase::Idle,
    ensures
        ({
            let told = EventView::Signals { shutdown: false, reload: true };
            let heard = s.after(told);
            let started = heard.after(EventView::Resolved(Some(cfg)));
            &&& s.effects(told) == seq![Effect::ResolveConfig]
            &&& heard.effects(EventView::Resolved(Some(cfg))) == seq![Effect::StartSession]
            &&& started == (SupervisorView { cfg, phase: Phase::Starting, ..s })
        }),
{
}

/// A hotspot that is up stays up as long as nothing is heard, and is asked after
/// twice a second.
pub proof fn law_running_goes_on(s: SupervisorView)
    requires
        s.phase == Phase::Running,
    ensures
        ({
            let quiet = EventView::Running { shutdown: false, reload: false, exited: false };
            &&& s.after(quiet) == s
            &&& s.effects(quiet) == seq![Effect::Pause(500)]
        }),
{
}

/// What is told to a hotspot that is up counts for more than that it exited, and
/// that it is to stop counts for more than that it is to read its settings again.
/// While it is down, only the word to stop is heard.
pub proof fn law_signals_come_first(s: SupervisorView, reload: bool, exited: bool)
    ensures
        s.phase == Phase::Running ==> {
            let stop = EventView::Running { shutdown: true, reload, exited };
            let stop_alone = EventView::Running { shutdown: true, reload: false, exited: false };
            &&& s.after(stop) == s.after(stop_alone)
            &&& s.effects(stop) == s.effects(stop_alone)
        },
        s.phase == Phase::Running ==> {
            let again = EventView::Running { shutdown: false, reload: true, exited };
            let again_alone = EventView::Running { shutdown: false, reload: true, exited: false };
            &&& s.after(again) == s.after(again_alone)
            &&& s.effects(again) == s.effects(again_alone)
        },
        s.phase == Phase::Down ==> {
            let heard = EventView::Signals { shutdown: false, reload };
            &&& s.after(heard).phase == Phase::Idle
            &&& s.effects(heard) == seq![Effect::Backoff(s.restart_delay)]
        },
{
}

/// The wait before the next start goes back to a second when a start succeeds,
/// is doubled up to half a minute by each wait, and else stays as it is.
pub proof fn law_wait_changes(s: SupervisorView, event: EventView)
    requires
        s.awaits(event),
        s.wf(),
    ensures
        ({
            let next = s.after(event).restart_delay;
            let waits = match event {
                EventView::Signals { shutdown, .. } => s.phase == Phase::Down && !shutdown,
                _ => false,
            };
            &&& event == EventView::Started(true) ==> next == 1
            &&& waits && s.restart_delay <= 15 ==> next == 2 * s.restart_delay
            &&& waits && s.restart_delay > 15 ==> next == 30
            &&& !waits && event != EventView::Started(true) ==> next == s.restart_delay
        }),
{
}

/// A hotspot that exited by itself is started again with the same settings,
/// after a second.
pub proof fn law_exit_leads_to_a_new_start(s: SupervisorView)
    requires
        s.phase == Phase::Starting,
    ensures
        ({
            let quiet = EventView::Signals { shutdown: false, reload: false };
            let up = s.after(EventView::Started(true));
            let exited = EventView::Running { shutdown: false, reload: false, exited: true };
            let down = up.after(exited);
            &&& up.phase == Phase::Running
            &&& !up.effects(exited).contains(Effect::KillHostapd)
            &&& down.effects(quiet) == seq![Effect::Backoff(1)]
            &&& down.after(quiet).effects(quiet) == seq![Effect::StartSession]
            &&& down.after(quiet).after(quiet).cfg == s.cfg
        }),
{
    let up = s.after(EventView::Started(true));
    let exited = EventView::Running { shutdown: false, reload: false, exited: true };
    let done = up.effects(exited);
    assert forall|i: int| 0 <= i < done.len() implies done[i] != Effect::KillHostapd by {}
}

/// The supervisor after `n` starts that failed, with no signals in between.
pub open spec fn after_failures(s: SupervisorView, n: nat) -> SupervisorView
    decreases n,
{
    if n == 0 {
        s
    } else {
        let quiet = EventView::Signals { shutdown: false, reload: false };
        after_failures(s, (n - 1) as nat).after(EventView::Started(false)).after(quiet).after(quiet)
    }
}

/// A hotspot that does not start is started again and again, with the same
/// settings; what is waited after one more failure than `n` in a row is `n`
/// times a doubling of one second, up to the longest.
pub proof fn law_failures_lengthen_the_wait(s: SupervisorView, n: nat)
    requires
        s.phase == Phase::Starting,
        s.restart_delay == 1,
    ensures
        after_failures(s, n) == (SupervisorView { restart_delay: delay_after(n), ..s }),
        after_failures(s, n).after(EventView::Started(false)).effects(
            EventView::Signals { shutdown: false, reload: false },
        ) == seq![Effect::Backoff(delay_after(n))],
    decreases n,
{
    if n > 0 {
        law_failures_lengthen_the_wait(s, (n - 1) as nat);
    }
}

// ---------------------------------------------------------------------------
// Operations
// ---------------------------------------------------------------------------

impl Supervisor {
    /// A supervisor of a hotspot that is about to be started.
    pub fn new(cfg: Config) -> (res: Self)
        ensures
            res@ == (SupervisorView { cfg: cfg@, restart_delay: 1, phase: Phase::Idle }),
            res@.wf(),
    {
        Supervisor { cfg, restart_delay: 1, phase: Phase::Idle }
    }

    /// Takes in what was heard, and says what is to be done, in order.
    pub fn step(&mut self, event: Event) -> (res: Vec<Effect>)
        requires
            old(self)@.wf(),
            old(self)@.awaits(event@),
        ensures
            final(self)@ == old(self)@.after(event@),
            final(self)@.wf(),
            res@ == old(self)@.effects(event@),
    {
        let mut res: Vec<Effect> = Vec::new();
        match event {
            Event::Signals { shutdown, reload } => {
                if shutdown {
                    self.phase = Phase::Stopped;
                    res.push(Effect::CleanupNat);
                } else {
                    match self.phase {
                        Phase::Idle => {
                            if reload {
                                self.phase = Phase::IdleReload;
                                res.push(Effect::ResolveConfig);
                            } else {
                                self.phase = Phase::Starting;
                                res.push(Effect::StartSession);
                            }
                        },
                        _ => {
                            res.push(Effect::Backoff(self.restart_delay));
                            let twice: u64 = self.restart_delay * 2;
                            self.restart_delay = if twice <= MAX_DELAY {
                                twice
                            } else {
                                MAX_DELAY
                            };
                            self.phase = Phase::Idle;
                        },
                    }
                }
            },
            Event::Running { shutdown, reload, exited } => {
                if shutdown {
                    self.phase = Phase::Stopped;
                    res.push(Effect::StopServices);
                    res.push(Effect::KillHostapd);
                    res.push(Effect::Teardown);
                    res.push(Effect::CleanupNat);
                } else if reload {
                    self.phase = Phase::RunningReload;
                    res.push(Effect::StopServices);
                    res.push(Effect::KillHostapd);
                    res.push(Effect::Teardown);
                    res.push(Effect::ResolveConfig);
                } else if exited {
                    self.phase = Phase::Down;
                    res.push(Effect::StopServices);
                    res.push(Effect::Teardown);
                    res.push(Effect::RenewServices);
                } else {
                    res.push(Effect::Pause(500));
                }
            },
            Event::Resolved(cfg) => {
                if let Some(c) = cfg {
                    self.cfg = c;
                }
                match self.phase {
                    Phase::IdleReload => {
                        self.phase = Phase::Starting;
                        res.push(Effect::StartSession);
                    },
                    _ => {
                        self.phase = Phase::Down;
                        res.push(Effect::RenewServices);
                    },
                }
            },
            Event::Started(ok) => {
                if ok {
                    self.restart_delay = 1;
                    self.phase = Phase::Running;
                } else {
                    self.phase = Phase::Down;
                    res.push(Effect::RenewServices);
                }
            },
        }
        assert(res@ =~= old(self)@.effects(event@));
        res
    }
}

/// A wait of `remaining` milliseconds, in naps of 200 at most: how long the
/// first one is.
pub open spec fn nap(remaining: u64) -> u64 {
    if remaining < 200 {
        remaining
    } else {
        200
    }
}

/// The length of all naps of a wait.
pub open spec fn naps(remaining: u64) -> int
    decreases remaining,
{
    if remaining == 0 {
        0
    } else {
        nap(remaining) + naps((remaining - nap(remaining)) as u64)
    }
}

/// A wait that is not cut short is as long as it was to be.
pub proof fn law_naps_add_up(remaining: u64)
    ensures
        naps(remaining) == remaining,
    decreases remaining,
{
    if remaining > 0 {
        law_naps_add_up((remaining - nap(remaining)) as u64);
    }
}

/// No nap is empty or longer than 200 milliseconds, so that a wait is cut short
/// soon after the hotspot is told to stop.
pub proof fn law_naps_are_short(remaining: u64)
    requires
        remaining > 0,
    ensures
        0 < nap(remaining) <= 200,
        nap(remaining) <= remaining,
        remaining >= 200 ==> nap(remaining) == 200,
{
}

/// The next nap of a wait, and what is left of the wait after it; nothing, if
/// the wait is over or the hotspot is told to stop.
pub fn interruptible_sleep(remaining: u64, shutdown: bool) -> (res: Option<(u64, u64)>)
    ensures
        res == if remaining > 0 && !shutdown {
            Some((nap(remaining), (remaining - nap(remaining)) as u64))
        } else {
            None
        },
{
    if remaining > 0 && !shutdown {
        let first: u64 = if remaining < 200 {
            remaining
        } else {
            200
        };
        Some((first, remaining - first))
    } else {
        None
    }
}

} // verus!
