//! The scheduler's timers: when to send commands again, when to publish an
//! update, and the span of rapid mode.

use vstd::prelude::*;
use vstd::string::StringExecFns;
use crate::code::Code;
use crate::mqtt::Request;
use crate::sensor::Sensors;
use crate::station::{deadline, deadline_after, dispatch, CodeHandler, CommandManager};

verus! {

/// The time between two normal updates, in milliseconds.
pub const UPDATE_MILLIS: u64 = 60_000;

/// The time for which a request keeps rapid mode on, in milliseconds.
pub const RAPID_MILLIS: u64 = 60_000;

/// The time between two rapid updates, in milliseconds.
pub const RAPID_UPDATE_MILLIS: u64 = 2_500;

/// The lesser of two instants.
pub open spec fn earlier(a: u64, b: u64) -> u64 {
    if a <= b {
        a
    } else {
        b
    }
}

/// What a pass over the timers asks for.
#[derive(Debug, Clone, Copy, PartialEq, Eq)]
pub struct Matured {
    /// Send the due commands again.
    pub retry: bool,
    /// Publish a normal update.
    pub update: bool,
    /// Publish a rapid update.
    pub rapid_update: bool,
}

/// What the scheduler does next.
#[derive(Debug, Clone, Copy, PartialEq, Eq)]
pub enum Step {
    /// Timers have matured: do what the pass asks for.
    Fire(Matured),
    /// Nothing has matured: wait for an event, for so many milliseconds at
    /// most.
    Wait(u64),
}

/// What a remote request asks for.
#[derive(Debug, Clone, Copy, PartialEq, Eq)]
pub enum RequestKind {
    /// Publish the station's identification.
    Info,
    /// Turn rapid mode on.
    RapidWeather,
    /// Nothing that the station knows.
    Unknown,
}

/// What a request with this action asks for.
pub open spec fn request_kind(action: Seq<char>) -> RequestKind {
    if action == "info"@ {
        RequestKind::Info
    } else if action == "rapid-weather"@ {
        RequestKind::RapidWeather
    } else {
        RequestKind::Unknown
    }
}

/// The scheduler's timers. Instants and spans are in milliseconds of the
/// monotonic clock.
#[derive(Debug, Clone, Copy, PartialEq, Eq)]
pub struct Scheduler {
    /// Whether rapid mode is on.
    pub rapid: bool,
    /// When rapid mode ends.
    pub rapid_due: u64,
    /// When the next rapid update is due.
    pub rapid_update_due: u64,
    /// When the next normal update is due.
    pub update_due: u64,
}

impl Scheduler {
    /// The scheduler at its start: rapid mode off, and a normal update due
    /// at once.
    pub open spec fn start(now: u64) -> Self {
        Scheduler { rapid: false, rapid_due: now, rapid_update_due: now, update_due: now }
    }

    /// The earliest instant at which a timer matures, given the earliest
    /// deadline of the commands in flight.
    pub open spec fn timeout_at(self, cmd_due: Option<u64>) -> u64 {
        let base = match cmd_due {
            Some(due) => earlier(due, self.update_due),
            None => self.update_due,
        };
        if self.rapid {
            earlier(earlier(base, self.rapid_due), self.rapid_update_due)
        } else {
            base
        }
    }

    /// What a pass at `now` asks for.
    pub open spec fn matured(self, now: u64, cmd_due: Option<u64>) -> Matured {
        Matured {
            retry: cmd_due matches Some(due) && due <= now,
            update: self.update_due <= now,
            rapid_update: self.rapid && self.rapid_update_due <= now,
        }
    }

    /// The timers after a pass at `now`: each matured timer is set anew, and
    /// rapid mode ends where its span is over.
    pub open spec fn after_pass(self, now: u64) -> Self {
        Scheduler {
            rapid: self.rapid && !(self.rapid_due <= now),
            rapid_due: self.rapid_due,
            rapid_update_due: if self.rapid && self.rapid_update_due <= now {
                deadline(now, RAPID_UPDATE_MILLIS)
            } else {
                self.rapid_update_due
            },
            update_due: if self.update_due <= now {
                deadline(now, UPDATE_MILLIS)
            } else {
                self.update_due
            },
        }
    }

    /// What the scheduler does at `now`: a pass, where a timer has matured,
    /// and otherwise a wait until the first matures.
    pub open spec fn plan(self, now: u64, cmd_due: Option<u64>) -> Step {
        if self.timeout_at(cmd_due) <= now {
            Step::Fire(self.matured(now, cmd_due))
        } else {
            Step::Wait((self.timeout_at(cmd_due) - now) as u64)
        }
    }

    /// The timers after `plan`.
    pub open spec fn after_plan(self, now: u64, cmd_due: Option<u64>) -> Self {
        if self.timeout_at(cmd_due) <= now {
            self.after_pass(now)
        } else {
            self
        }
    }

    /// The timers after a request: one for rapid weather turns rapid mode
    /// on for its span and makes a rapid update due at once.
    pub open spec fn after_request(self, action: Seq<char>, now: u64) -> Self {
        if request_kind(action) == RequestKind::RapidWeather {
            Scheduler {
                rapid: true,
                rapid_due: deadline(now, RAPID_MILLIS),
                rapid_update_due: now,
                ..self
            }
        } else {
            self
        }
    }

    /// The scheduler at its start.
    pub fn new(now: u64) -> (res: Self)
        ensures
            res == Self::start(now),
    {
        Scheduler { rapid: false, rapid_due: now, rapid_update_due: now, update_due: now }
    }

    /// The earliest instant at which a timer matures.
    pub fn timeout(&self, cmd_due: Option<u64>) -> (res: u64)
        ensures
            res == self.timeout_at(cmd_due),
    {
        let mut timeout = match cmd_due {
            Some(due) => if due <= self.update_due {
                due
            } else {
                self.update_due
            },
            None => self.update_due,
        };
        if self.rapid {
            if self.rapid_due < timeout {
                timeout = self.rapid_due;
            }
            if self.rapid_update_due < timeout {
                timeout = self.rapid_update_due;
            }
        }
        timeout
    }

    /// Makes a pass over the timers at `now`: says what has matured and
    /// sets each matured timer anew.
    pub fn mature(&mut self, now: u64, cmd_due: Option<u64>) -> (res: Matured)
        ensures
            res == old(self).matured(now, cmd_due),
            *final(self) == old(self).after_pass(now),
    {
        let retry = match cmd_due {
            Some(due) => due <= now,
            None => false,
        };
        let update = self.update_due <= now;
        if update {
            self.update_due = deadline_after(now, UPDATE_MILLIS);
        }
        let rapid_update = self.rapid && self.rapid_update_due <= now;
        if rapid_update {
            self.rapid_update_due = deadline_after(now, RAPID_UPDATE_MILLIS);
        }
        if self.rapid && self.rapid_due <= now {
            self.rapid = false;
        }
        Matured { retry, update, rapid_update }
    }

    /// Decides what to do at `now`: a pass over the timers where one has
    /// matured, and otherwise how long to wait for an event.
    pub fn poll(&mut self, now: u64, cmd_due: Option<u64>) -> (res: Step)
        ensures
            res == old(self).plan(now, cmd_due),
            *final(self) == old(self).after_plan(now, cmd_due),
    {
        let timeout = self.timeout(cmd_due);
        if timeout <= now {
            Step::Fire(self.mature(now, cmd_due))
        } else {
            Step::Wait(timeout - now)
        }
    }

    /// Takes a remote request at `now`, and says what it asks for.
    pub fn request(&mut self, request: &Request, now: u64) -> (res: RequestKind)
        ensures
            res == request_kind(request.action@),
            *final(self) == old(self).after_request(request.action@, now),
    {
        if request.action == String::from_str("info") {
            RequestKind::Info
        } else if request.action == String::from_str("rapid-weather") {
            self.rapid = true;
            self.rapid_due = deadline_after(now, RAPID_MILLIS);
            self.rapid_update_due = now;
            RequestKind::RapidWeather
        } else {
            RequestKind::Unknown
        }
    }
}

/// What reaches the scheduler from the other workers.
#[derive(Debug)]
pub enum ChannelType {
    /// A record that the link decoded, with the number that the text of its
    /// `V` parameter spells, where that is a byte string that spells one.
    Code(Code, Option<u32>),
    /// The account of a decode error.
    CodeErr(String),
    /// A remote request.
    Request(Request),
}

/// What the scheduler made of an event.
#[derive(Debug, Clone, Copy, PartialEq, Eq)]
pub enum Reaction {
    /// A record went through the router, which took it or dropped it.
    Routed { accepted: bool },
    /// A decode error: to be logged, and nothing else.
    DecodeError,
    /// A request for the station's identification: to be published.
    PublishInfo,
    /// A request for rapid weather: rapid mode is on.
    RapidStarted,
    /// A request for something that the station does not know.
    Ignored,
}

/// The reaction to a request of this kind.
pub open spec fn reaction_to(kind: RequestKind) -> Reaction {
    match kind {
        RequestKind::Info => Reaction::PublishInfo,
        RequestKind::RapidWeather => Reaction::RapidStarted,
        RequestKind::Unknown => Reaction::Ignored,
    }
}

/// Handles one event from the channel at `now`: a record goes through the
/// router, a decode error is set aside for the log, a request is taken by
/// the scheduler.
pub fn on_event(
    scheduler: &mut Scheduler,
    event: &ChannelType,
    router: &CodeHandler,
    commands: &mut CommandManager,
    sensors: &mut Sensors,
    now: u64,
) -> (res: Reaction)
    requires
        old(sensors).wf(),
    ensures
        final(sensors).wf(),
        match *event {
            ChannelType::Code(code, spelled) => {
                let routed = dispatch(router@, old(commands)@, old(sensors)@, code@, now, spelled);
                &&& res == (Reaction::Routed { accepted: routed.2 })
                &&& final(commands)@ == routed.0
                &&& final(sensors)@ == routed.1
                &&& *final(scheduler) == *old(scheduler)
            },
            ChannelType::CodeErr(_) => {
                &&& res == Reaction::DecodeError
                &&& final(commands)@ == old(commands)@
                &&& final(sensors)@ == old(sensors)@
                &&& *final(scheduler) == *old(scheduler)
            },
            ChannelType::Request(request) => {
                &&& res == reaction_to(request_kind(request.action@))
                &&& final(commands)@ == old(commands)@
                &&& final(sensors)@ == old(sensors)@
                &&& *final(scheduler) == old(scheduler).after_request(request.action@, now)
            },
        },
{
    match event {
        ChannelType::Code(code, spelled) => {
            let accepted = router.code(code, commands, sensors, now, *spelled);
            Reaction::Routed { accepted }
        },
        ChannelType::CodeErr(_) => Reaction::DecodeError,
        ChannelType::Request(request) => {
            match scheduler.request(request, now) {
                RequestKind::Info => Reaction::PublishInfo,
                RequestKind::RapidWeather => Reaction::RapidStarted,
                RequestKind::Unknown => Reaction::Ignored,
            }
        },
    }
}

/// A request for rapid weather at `now` turns rapid mode on until 60 s
/// later, and the scheduler's next step at `now` is a pass that asks for a
/// rapid update.
pub proof fn law_rapid_request_fires_at_once(s: Scheduler, now: u64, cmd_due: Option<u64>)
    ensures
        ({
            let on = s.after_request("rapid-weather"@, now);
            &&& on.rapid
            &&& on.rapid_due == deadline(now, RAPID_MILLIS)
            &&& on.update_due == s.update_due
            &&& on.plan(now, cmd_due) matches Step::Fire(m) && m.rapid_update
        }),
{
    reveal_strlit("rapid-weather");
    reveal_strlit("info");
    assert("rapid-weather"@.len() != "info"@.len());
}

/// A request whose action is neither of the two that the station knows
/// leaves the timers as they are.
pub proof fn law_unknown_request_is_ignored(s: Scheduler, action: Seq<char>, now: u64)
    requires
        action != "info"@,
        action != "rapid-weather"@,
    ensures
        request_kind(action) == RequestKind::Unknown,
        s.after_request(action, now) == s,
{
}

/// The scheduler waits only while nothing has matured, and then exactly
/// until the first timer matures: no deadline lies before the end of the
/// wait.
pub proof fn law_wait_ends_at_first_timer(s: Scheduler, now: u64, cmd_due: Option<u64>)
    ensures
        match s.plan(now, cmd_due) {
            Step::Wait(span) => {
                &&& span > 0
                &&& now + span == s.timeout_at(cmd_due)
                &&& s.after_plan(now, cmd_due) == s
                &&& s.matured(now, cmd_due) == (Matured {
                    retry: false,
                    update: false,
                    rapid_update: false,
                })
                &&& now + span <= s.update_due
                &&& (cmd_due matches Some(due) ==> now + span <= due)
                &&& (s.rapid ==> now + span <= s.rapid_due && now + span <= s.rapid_update_due)
            },
            Step::Fire(m) => {
                &&& m == s.matured(now, cmd_due)
                &&& s.after_plan(now, cmd_due) == s.after_pass(now)
                &&& (m.retry || m.update || m.rapid_update || (s.rapid && s.rapid_due <= now))
            },
        },
{
}

/// A pass sets each matured timer to a later instant: after a pass at
/// `now`, short of the clock's end, the next normal update is due after
/// `now`, and so is the next rapid update while rapid mode lasts.
pub proof fn law_pass_moves_timers_on(s: Scheduler, now: u64)
    requires
        now + UPDATE_MILLIS <= u64::MAX,
    ensures
        s.after_pass(now).update_due > now,
        s.update_due <= now ==> s.after_pass(now).update_due == now + UPDATE_MILLIS,
        s.after_pass(now).rapid ==> s.after_pass(now).rapid_update_due > now && s.after_pass(
            now,
        ).rapid_due > now,
        s.rapid && s.rapid_update_due <= now ==> s.after_pass(now).rapid_update_due == now
            + RAPID_UPDATE_MILLIS,
{
}

/// Rapid mode ends with its span, and nothing but a request turns it on: a
/// pass at or after the end of the span clears it, and no pass sets it.
pub proof fn law_rapid_mode_ends(s: Scheduler, now: u64)
    ensures
        s.rapid_due <= now ==> !s.after_pass(now).rapid,
        !s.rapid ==> !s.after_pass(now).rapid,
        s.rapid && now < s.rapid_due ==> s.after_pass(now).rapid,
        s.after_pass(now).rapid_due == s.rapid_due,
{
}

/// Normal updates do not depend on rapid mode: what a pass makes of the
/// normal timer is the same whether rapid mode is on or off.
pub proof fn law_normal_updates_continue(s: Scheduler, other: Scheduler, now: u64, cmd_due: Option<u64>)
    requires
        s.update_due == other.update_due,
    ensures
        s.matured(now, cmd_due).update == other.matured(now, cmd_due).update,
        s.after_pass(now).update_due == other.after_pass(now).update_due,
{
}

} // verus!
