//! Coming back to a machine that went away.

use vstd::prelude::*;

use super::events::is_status;
use super::events::ViewerEvent;
use super::session::SessionOutcome;
use crate::error::Failure;
use crate::qemu::types::ConnectTarget;
use crate::text::clone_opt_string;
use crate::text::concat3;
use crate::text::concat5;
use crate::text::joined;
use crate::text::opt_is;
use crate::text::opt_string;
use crate::text::scan::occurs;
use crate::text::scan::occurs_at;

verus! {

/// How to find the machine again.
#[derive(Debug)]
pub struct ReconnectPlan {
    pub requested_address: Option<String>,
    pub vm_name: String,
    pub vm_uuid: String,
    pub console_id: u32,
}

/// The end of the message about a machine at an explicit address.
pub const NEW_SOCKET_HINT: &'static str =
    "`.\nIf the VM restarted on a new private D-Bus socket, rerun QD2 without `--address` or pass the new address.";

/// The hint where an explicit address is tried again.
pub const EXPLICIT_RETRY_HINT: &'static str =
    "QD2 will keep retrying the same explicit address until the VM returns there.";

/// The hint where the machine is searched for again.
pub const SEARCH_RETRY_HINT: &'static str =
    "QD2 will keep auto-discovering the VM by UUID while it restarts.";

impl ReconnectPlan {
    /// What the user is told while the machine is away.
    pub open spec fn waiting_text(&self) -> Seq<char> {
        match self.requested_address {
            Some(address) => "Connection to `"@ + self.vm_name@
                + "` was lost. Trying to reconnect on `"@ + address@ + NEW_SOCKET_HINT@,
            None => "Connection to `"@ + self.vm_name@
                + "` was lost. Waiting for the VM to come back..."@,
        }
    }

    /// What the user is told when an attempt has failed.
    pub open spec fn error_text(&self, failure: Seq<Seq<char>>) -> Seq<char> {
        self.waiting_text() + "\nLast reconnect error: "@ + joined(failure, ": "@) + "\n"@
            + if self.requested_address is Some {
            EXPLICIT_RETRY_HINT@
        } else {
            SEARCH_RETRY_HINT@
        }
    }

    /// How to find the machine of a target again.
    pub fn new(target: &ConnectTarget, requested_address: Option<String>) -> (plan: ReconnectPlan)
        ensures
            opt_string(plan.requested_address) == opt_string(requested_address),
            plan.vm_name@ == target.vm_name@,
            plan.vm_uuid@ == target.vm_uuid@,
            plan.console_id == target.console_id,
    {
        ReconnectPlan {
            requested_address,
            vm_name: target.vm_name.clone(),
            vm_uuid: target.vm_uuid.clone(),
            console_id: target.console_id,
        }
    }

    /// What the user is told while the machine is away.
    pub fn waiting_message(&self) -> (message: String)
        ensures
            message@ == self.waiting_text(),
    {
        match &self.requested_address {
            Some(address) => concat5(
                "Connection to `",
                self.vm_name.as_str(),
                "` was lost. Trying to reconnect on `",
                address.as_str(),
                NEW_SOCKET_HINT,
            ),
            None => concat3(
                "Connection to `",
                self.vm_name.as_str(),
                "` was lost. Waiting for the VM to come back...",
            ),
        }
    }

    /// What the user is told when an attempt has failed.
    pub fn error_message(&self, failure: &Failure) -> (message: String)
        ensures
            message@ == self.error_text(failure@),
    {
        let waiting = self.waiting_message();
        let reason = failure.in_full();
        let hint = if self.requested_address.is_some() {
            EXPLICIT_RETRY_HINT
        } else {
            SEARCH_RETRY_HINT
        };
        concat5(waiting.as_str(), "\nLast reconnect error: ", reason.as_str(), "\n", hint)
    }
}

/// What is shown, and what is told, once there is a text to tell: one that is shown already is not
/// told again.
pub open spec fn tell(shown: Option<Seq<char>>, text: Seq<char>) -> (
    Option<Seq<char>>,
    Option<Seq<char>>,
) {
    (
        Some(text),
        if shown == Some(text) {
            None
        } else {
            Some(text)
        },
    )
}

/// The event tells the text, where there is one.
pub open spec fn tells(event: Option<ViewerEvent>, text: Option<Seq<char>>) -> bool {
    match (event, text) {
        (Some(status), Some(text)) => is_status(status, text),
        (None, None) => true,
        _ => false,
    }
}

/// The status to show, unless it is the one that is shown already.
pub fn send_status_if_changed(last_status: &mut Option<String>, message: String) -> (event: Option<
    ViewerEvent,
>)
    ensures
        opt_string(*final(last_status)) == tell(opt_string(*old(last_status)), message@).0,
        tells(event, tell(opt_string(*old(last_status)), message@).1),
{
    if opt_is(last_status, message.as_str()) {
        return None;
    }
    *last_status = Some(message.clone());
    Some(ViewerEvent::Status(message))
}

/// What to do next.
#[derive(Debug)]
pub enum SupervisorStep {
    /// The program is to end.
    Stop,
    /// The window never opened: report why, and end.
    ReportStartup(Failure),
    /// Wait before the next attempt. A new status is shown at once.
    Wait(Option<ViewerEvent>),
    /// Look for the machine.
    Resolve { address: Option<String>, uuid: String, console_id: u32 },
    /// Connect.
    RunSession(ConnectTarget),
}

/// Keeps the viewer connected.
#[derive(Debug)]
pub struct Supervisor {
    plan: ReconnectPlan,
    last_status: Option<String>,
    first: bool,
}

impl Supervisor {
    /// How to find the machine again.
    pub closed spec fn plan(&self) -> ReconnectPlan {
        self.plan
    }

    /// The status that is shown.
    pub closed spec fn shown(&self) -> Option<Seq<char>> {
        opt_string(self.last_status)
    }

    /// No connection has been made yet.
    pub closed spec fn is_first(&self) -> bool {
        self.first
    }

    /// Before the first connection.
    pub fn new(target: &ConnectTarget, requested_address: Option<String>) -> (supervisor:
        Supervisor)
        ensures
            supervisor.is_first(),
            supervisor.shown() is None,
            opt_string(supervisor.plan().requested_address) == opt_string(requested_address),
            supervisor.plan().vm_name@ == target.vm_name@,
            supervisor.plan().vm_uuid@ == target.vm_uuid@,
            supervisor.plan().console_id == target.console_id,
    {
        Supervisor {
            plan: ReconnectPlan::new(target, requested_address),
            last_status: None,
            first: true,
        }
    }

    /// A connection has ended, or was not made. Its loss is always told, whatever is shown. The
    /// first connection that is not made ends the program.
    pub fn session_ended(&mut self, outcome: Result<SessionOutcome, Failure>) -> (step:
        SupervisorStep)
        ensures
            final(self).plan() == old(self).plan(),
            !final(self).is_first(),
            match outcome {
                Ok(SessionOutcome::Shutdown) => step == SupervisorStep::Stop,
                Ok(SessionOutcome::Disconnected) => {
                    &&& final(self).shown() == Some(old(self).plan().waiting_text())
                    &&& step matches SupervisorStep::Wait(event)
                    &&& tells(event, Some(old(self).plan().waiting_text()))
                },
                Err(failure) => if old(self).is_first() {
                    step == SupervisorStep::ReportStartup(failure)
                } else {
                    &&& final(self).shown() == Some(old(self).plan().error_text(failure@))
                    &&& step matches SupervisorStep::Wait(event)
                    &&& tells(event, Some(old(self).plan().error_text(failure@)))
                },
            },
    {
        let first = self.first;
        self.first = false;
        self.last_status = None;
        match outcome {
            Ok(SessionOutcome::Shutdown) => SupervisorStep::Stop,
            Ok(SessionOutcome::Disconnected) => {
                let message = self.plan.waiting_message();
                SupervisorStep::Wait(send_status_if_changed(&mut self.last_status, message))
            },
            Err(failure) => {
                if first {
                    return SupervisorStep::ReportStartup(failure);
                }
                let message = self.plan.error_message(&failure);
                SupervisorStep::Wait(send_status_if_changed(&mut self.last_status, message))
            },
        }
    }

    /// The wait is over, or the program is to end.
    pub fn waited(&self, shutdown: bool) -> (step: SupervisorStep)
        ensures
            if shutdown {
                step == SupervisorStep::Stop
            } else {
                &&& step matches SupervisorStep::Resolve { address, uuid, console_id }
                &&& opt_string(address) == opt_string(self.plan().requested_address)
                &&& uuid@ == self.plan().vm_uuid@
                &&& console_id == self.plan().console_id
            },
    {
        if shutdown {
            SupervisorStep::Stop
        } else {
            SupervisorStep::Resolve {
                address: clone_opt_string(&self.plan.requested_address),
                uuid: self.plan.vm_uuid.clone(),
                console_id: self.plan.console_id,
            }
        }
    }

    /// The machine was found, or was not.
    pub fn resolved(&mut self, result: Result<ConnectTarget, Failure>) -> (step: SupervisorStep)
        ensures
            final(self).plan() == old(self).plan(),
            final(self).is_first() == old(self).is_first(),
            match result {
                Ok(target) => {
                    &&& step == SupervisorStep::RunSession(target)
                    &&& final(self).shown() == old(self).shown()
                },
                Err(failure) => {
                    let (shown, told) = tell(
                        old(self).shown(),
                        old(self).plan().error_text(failure@),
                    );
                    &&& final(self).shown() == shown
                    &&& step matches SupervisorStep::Wait(event)
                    &&& tells(event, told)
                },
            },
    {
        match result {
            Ok(target) => SupervisorStep::RunSession(target),
            Err(failure) => {
                let message = self.plan.error_message(&failure);
                SupervisorStep::Wait(send_status_if_changed(&mut self.last_status, message))
            },
        }
    }
}

/// What happens while the next attempt is waited for.
#[derive(Copy, Clone, Debug, PartialEq, Eq, Structural)]
pub enum WaitSignal {
    /// The program is to end.
    Shutdown,
    /// The window is gone, and with it the input.
    InputClosed,
    /// There is input, for which there is no guest.
    Input,
    /// It is time for the next attempt.
    TimedOut,
}

/// Whether the wait is over, and if so whether the program is to end. Input is dropped.
pub fn wait_over(signal: WaitSignal) -> (shutdown: Option<bool>)
    ensures
        shutdown == match signal {
            WaitSignal::Shutdown | WaitSignal::InputClosed => Some(true),
            WaitSignal::TimedOut => Some(false),
            WaitSignal::Input => None,
        },
{
    match signal {
        WaitSignal::Shutdown | WaitSignal::InputClosed => Some(true),
        WaitSignal::TimedOut => Some(false),
        WaitSignal::Input => None,
    }
}

/// Attempts that keep failing in the same way are told once: whatever was shown before, after the
/// first of them nothing more is told.
pub proof fn repeated_failures_are_told_once(
    plan: ReconnectPlan,
    shown: Option<Seq<char>>,
    failure: Seq<Seq<char>>,
)
    ensures
        ({
            let text = plan.error_text(failure);
            let after = tell(shown, text).0;
            tell(after, text) == (after, None::<Seq<char>>)
        }),
{
}

/// After a connection was lost, the first attempt that fails is told.
pub proof fn first_failure_is_told(plan: ReconnectPlan, failure: Seq<Seq<char>>)
    ensures
        tell(Some(plan.waiting_text()), plan.error_text(failure)).1 == Some(
            plan.error_text(failure),
        ),
{
    reveal_strlit("\n");
    assert(plan.error_text(failure).len() > plan.waiting_text().len());
}

/// A connection that is lost is always told and waited for; one that was never made ends the
/// program; and the program ends where it was asked to. What is told names the machine.
pub proof fn lost_connections_are_waited_for(
    supervisor: &mut Supervisor,
    outcome: Result<SessionOutcome, Failure>,
    step: SupervisorStep,
)
    requires
        call_ensures(Supervisor::session_ended, (supervisor, outcome), step),
    ensures
        step is Stop <==> outcome is Ok && outcome->Ok_0 is Shutdown,
        step is ReportStartup <==> outcome is Err && old(supervisor).is_first(),
        step is Wait <==> outcome is Ok && outcome->Ok_0 is Disconnected || outcome is Err && !old(
            supervisor,
        ).is_first(),
        step matches SupervisorStep::Wait(event) ==> event is Some && event->0 is Status && occurs(
            event->0->Status_0@,
            old(supervisor).plan().vm_name@,
        ),
        !final(supervisor).is_first(),
        final(supervisor).plan() == old(supervisor).plan(),
{
    if step is Wait {
        names_are_told(old(supervisor).plan(), seq![]);
        if outcome is Err {
            names_are_told(old(supervisor).plan(), outcome->Err_0@);
        }
    }
}

proof fn names_are_told(plan: ReconnectPlan, failure: Seq<Seq<char>>)
    ensures
        occurs(plan.waiting_text(), plan.vm_name@),
        occurs(plan.error_text(failure), plan.vm_name@),
        plan.requested_address matches Some(address) ==> occurs(plan.waiting_text(), address@),
{
    let name = plan.vm_name@;
    let waiting = plan.waiting_text();
    let error = plan.error_text(failure);
    reveal_strlit("Connection to `");
    assert(waiting.subrange(15, 15int + name.len()) =~= name);
    assert(occurs_at(waiting, name, 15));
    assert(error.subrange(15, 15int + name.len()) =~= name);
    assert(occurs_at(error, name, 15));
    if plan.requested_address is Some {
        let address = plan.requested_address->0@;
        let at = ("Connection to `"@ + name + "` was lost. Trying to reconnect on `"@).len() as int;
        assert(waiting.subrange(at, at + address.len()) =~= address);
        assert(occurs_at(waiting, address, at));
    }
}

/// Every attempt looks for the same machine: by its UUID, at the address that the user gave, for the
/// console that was shown. Once it is found it is connected to; where it is not, one waits again.
pub proof fn the_same_machine_is_looked_for(
    target: ConnectTarget,
    requested_address: Option<String>,
    supervisor: Supervisor,
    shutdown: bool,
    step: SupervisorStep,
)
    requires
        call_ensures(Supervisor::new, (&target, requested_address), supervisor),
        call_ensures(Supervisor::waited, (&supervisor, shutdown), step),
    ensures
        step is Stop <==> shutdown,
        !shutdown ==> (step matches SupervisorStep::Resolve { address, uuid, console_id } && uuid@
            == target.vm_uuid@ && console_id == target.console_id && opt_string(address)
            == opt_string(requested_address)),
{
}

/// A machine that was found is connected to. A failure to find it is told unless it is what is shown
/// already, and then waited for.
pub proof fn found_machines_are_connected_to(
    supervisor: &mut Supervisor,
    result: Result<ConnectTarget, Failure>,
    step: SupervisorStep,
)
    requires
        call_ensures(Supervisor::resolved, (supervisor, result), step),
    ensures
        result matches Ok(target) ==> step == SupervisorStep::RunSession(target) && final(
            supervisor).shown() == old(supervisor).shown(),
        result is Err ==> (step matches SupervisorStep::Wait(event) && {
            let text = final(supervisor).shown();
            &&& text is Some
            &&& event is None <==> old(supervisor).shown() == text
            &&& event matches Some(told) ==> told is Status && Some(told->Status_0@) == text
            &&& occurs(text->0, old(supervisor).plan().vm_name@)
        }),
        final(supervisor).plan() == old(supervisor).plan(),
{
    if result is Err {
        names_are_told(old(supervisor).plan(), result->Err_0@);
    }
}

/// Waiting ends with the program, with the window, or in time, and with nothing else.
pub proof fn input_does_not_end_the_wait(signal: WaitSignal, shutdown: Option<bool>)
    requires
        call_ensures(wait_over, (signal,), shutdown),
    ensures
        shutdown is None <==> signal is Input,
        shutdown == Some(false) <==> signal is TimedOut,
        shutdown == Some(true) <==> signal is Shutdown || signal is InputClosed,
{
}

/// A status is told exactly where it is not the one that is shown, and is the one that is shown
/// afterwards.
pub proof fn new_statuses_are_told(
    last_status: &mut Option<String>,
    message: String,
    event: Option<ViewerEvent>,
)
    requires
        call_ensures(send_status_if_changed, (last_status, message), event),
    ensures
        opt_string(*final(last_status)) == Some(message@),
        event is None <==> opt_string(*old(last_status)) == Some(message@),
        event matches Some(told) ==> told is Status && told->Status_0@ == message@,
{
}

/// What is told of a failed attempt begins with what is told while the machine is away, holds the
/// failure, and ends with what happens next: the address is tried again where the user gave one,
/// and the machine is searched for where not.
pub proof fn failed_attempts_are_told_in_full(
    plan: ReconnectPlan,
    failure: Failure,
    waiting: String,
    error: String,
)
    requires
        call_ensures(ReconnectPlan::waiting_message, (&plan,), waiting),
        call_ensures(ReconnectPlan::error_message, (&plan, &failure), error),
    ensures
        error@.len() > waiting@.len(),
        error@.take(waiting@.len() as int) == waiting@,
        occurs(error@, joined(failure@, ": "@)),
        occurs(waiting@, plan.vm_name@),
        plan.requested_address matches Some(address) ==> occurs(waiting@, address@),
        ({
            let end = if plan.requested_address is Some {
                "QD2 will keep retrying the same explicit address until the VM returns there."@
            } else {
                "QD2 will keep auto-discovering the VM by UUID while it restarts."@
            };
            error@.len() >= end.len() && error@.skip(error@.len() - end.len()) == end
        }),
{
    reveal_strlit("\nLast reconnect error: ");
    names_are_told(plan, failure@);
    let cause = joined(failure@, ": "@);
    let at = waiting@.len() + "\nLast reconnect error: "@.len();
    assert(error@.take(waiting@.len() as int) =~= waiting@);
    assert(error@.subrange(at as int, at as int + cause.len()) =~= cause);
    assert(occurs_at(error@, cause, at as int));
    let end = if plan.requested_address is Some {
        EXPLICIT_RETRY_HINT@
    } else {
        SEARCH_RETRY_HINT@
    };
    assert(error@.skip(error@.len() - end.len()) =~= end);
}

}
