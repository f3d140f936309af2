//! The capture helper: ask the desktop portal for a screenshot and hand it to the editor service.
//!
//! The helper does one thing after another and each function below decides, from how a step went,
//! which step comes next.
use crate::failure::Failure;
use vstd::prelude::*;

verus! {

/// How the request to the desktop portal went.
#[derive(Debug)]
pub enum PortalResponse {
    /// The runtime for the request did not start.
    NoRuntime(String),
    /// A screenshot was taken; its path is known if it is a local file.
    Image { path: Option<Vec<u8>> },
    /// The user cancelled the selection.
    Cancelled,
    /// There was no answer within this many seconds.
    TimedOut(u64),
    /// The request failed otherwise.
    Failed(String),
}

/// How long the portal may take.
pub open spec fn deadline(portal_timeout_seconds: u64) -> Option<u64> {
    if portal_timeout_seconds > 0 {
        Some(portal_timeout_seconds)
    } else {
        None
    }
}

/// How long to wait for the portal: as long as it takes if the setting is zero.
pub fn portal_deadline(portal_timeout_seconds: u64) -> (seconds: Option<u64>)
    ensures
        seconds == if portal_timeout_seconds == 0 {
            None
        } else {
            Some(portal_timeout_seconds)
        },
        seconds == deadline(portal_timeout_seconds),
{
    if portal_timeout_seconds == 0 {
        None
    } else {
        Some(portal_timeout_seconds)
    }
}

/// What a response amounts to: the path of a screenshot, no screenshot because the user did not
/// want one, or a failure.
pub open spec fn outcome(response: PortalResponse) -> Result<Option<Vec<u8>>, Failure> {
    match response {
        PortalResponse::NoRuntime(error) => Err(Failure::PortalRuntime(error)),
        PortalResponse::Image { path: Some(path) } => Ok(Some(path)),
        PortalResponse::Image { path: None } => Err(Failure::PortalLocation),
        PortalResponse::Cancelled => Ok(None),
        PortalResponse::TimedOut(seconds) => Err(Failure::PortalTimeout(seconds)),
        PortalResponse::Failed(error) => Err(Failure::Portal(error)),
    }
}

/// What a response amounts to: the path of a screenshot, no screenshot because the user did not
/// want one, or a failure.
pub fn capture_with_portal(response: PortalResponse) -> (captured: Result<
    Option<Vec<u8>>,
    Failure,
>)
    ensures
        captured == outcome(response),
{
    match response {
        PortalResponse::NoRuntime(error) => Err(Failure::PortalRuntime(error)),
        PortalResponse::Image { path } => match path {
            Some(path) => Ok(Some(path)),
            None => Err(Failure::PortalLocation),
        },
        PortalResponse::Cancelled => Ok(None),
        PortalResponse::TimedOut(seconds) => Err(Failure::PortalTimeout(seconds)),
        PortalResponse::Failed(error) => Err(Failure::Portal(error)),
    }
}

/// What the helper does next.
#[derive(Debug)]
pub enum HelperStep {
    /// Read the configuration and ask the portal for a screenshot.
    Capture,
    /// Copy the screenshot at this path to where the service will find it.
    Copy { path: Vec<u8> },
    /// Tell the service of the copy at this path.
    Deliver { copy: Vec<u8> },
    /// End, with this exit status and a message if there is one.
    Exit { code: i32, message: Option<String> },
}

/// The model of a step.
pub enum Step {
    Capture,
    Copy { path: Seq<u8> },
    Deliver { copy: Seq<u8> },
    Exit { code: int, message: Option<Seq<char>> },
}

impl View for HelperStep {
    type V = Step;

    open spec fn view(&self) -> Step {
        match *self {
            HelperStep::Capture => Step::Capture,
            HelperStep::Copy { path } => Step::Copy { path: path@ },
            HelperStep::Deliver { copy } => Step::Deliver { copy: copy@ },
            HelperStep::Exit { code, message: Some(message) } => Step::Exit {
                code: code as int,
                message: Some(message@),
            },
            HelperStep::Exit { code, message: None } => Step::Exit {
                code: code as int,
                message: None,
            },
        }
    }
}

/// The helper ends in good order.
pub open spec fn done() -> Step {
    Step::Exit { code: 0, message: None }
}

/// The helper ends with a failure, of which it tells.
pub open spec fn failing(failure: Failure) -> Step {
    Step::Exit { code: 1, message: Some(failure.text()) }
}

/// What follows the start of the service.
pub open spec fn after_service(started: Result<(), Failure>) -> Step {
    match started {
        Ok(_) => Step::Capture,
        Err(failure) => failing(failure),
    }
}

/// What follows the answer of the portal.
pub open spec fn after_portal(response: PortalResponse) -> Step {
    match outcome(response) {
        Ok(Some(path)) => Step::Copy { path: path@ },
        Ok(None) => done(),
        Err(failure) => failing(failure),
    }
}

/// What follows the copying of the screenshot.
pub open spec fn after_copy(copied: Result<Vec<u8>, String>) -> Step {
    match copied {
        Ok(copy) => Step::Deliver { copy: copy@ },
        Err(error) => failing(Failure::Handoff(error)),
    }
}

/// What follows the delivery of the screenshot.
pub open spec fn after_delivery(delivery: Delivery) -> Step {
    match delivered(delivery) {
        Ok(_) => done(),
        Err(failure) => failing(failure),
    }
}

/// How starting the editor service went.
#[derive(Debug)]
pub enum ServiceStart {
    /// The path of the program is unknown.
    NoExecutable(String),
    /// The program did not start.
    NotStarted(String),
    /// The program was started.
    Started,
}

/// What starting the service amounts to.
pub open spec fn service_start(outcome: ServiceStart) -> Result<(), Failure> {
    match outcome {
        ServiceStart::NoExecutable(error) => Err(Failure::Executable(error)),
        ServiceStart::NotStarted(error) => Err(Failure::Service(error)),
        ServiceStart::Started => Ok(()),
    }
}

/// What starting the service amounts to.
pub fn service_started(outcome: ServiceStart) -> (started: Result<(), Failure>)
    ensures
        started == service_start(outcome),
{
    match outcome {
        ServiceStart::NoExecutable(error) => Err(Failure::Executable(error)),
        ServiceStart::NotStarted(error) => Err(Failure::Service(error)),
        ServiceStart::Started => Ok(()),
    }
}

fn failed(failure: &Failure) -> (step: HelperStep)
    ensures
        step@ == failing(*failure),
{
    HelperStep::Exit { code: 1, message: Some(failure.message()) }
}

/// The service was started, or could not be.
pub fn service_ensured(started: Result<(), Failure>) -> (step: HelperStep)
    ensures
        step@ == after_service(started),
{
    match started {
        Ok(()) => HelperStep::Capture,
        Err(failure) => failed(&failure),
    }
}

/// The portal has answered. A cancelled selection ends the helper in good order.
pub fn portal_answered(response: PortalResponse) -> (step: HelperStep)
    ensures
        step@ == after_portal(response),
{
    match capture_with_portal(response) {
        Ok(Some(path)) => HelperStep::Copy { path },
        Ok(None) => HelperStep::Exit { code: 0, message: None },
        Err(failure) => failed(&failure),
    }
}

/// The screenshot was copied to a path, or could not be.
pub fn handoff_copied(copied: Result<Vec<u8>, String>) -> (step: HelperStep)
    ensures
        step@ == after_copy(copied),
{
    match copied {
        Ok(copy) => HelperStep::Deliver { copy },
        Err(error) => failed(&Failure::Handoff(error)),
    }
}

/// How telling the service of a screenshot went.
#[derive(Debug)]
pub enum Delivery {
    /// The path of the program is unknown.
    NoExecutable(String),
    /// The program did not start.
    NotSent(String),
    /// The program ended, in good order or not, with this exit status.
    Ended { success: bool, status: String },
}

/// What telling the service of a screenshot amounts to.
pub open spec fn delivered(delivery: Delivery) -> Result<(), Failure> {
    match delivery {
        Delivery::NoExecutable(error) => Err(Failure::Executable(error)),
        Delivery::NotSent(error) => Err(Failure::Delivery(error)),
        Delivery::Ended { success: true, status: _ } => Ok(()),
        Delivery::Ended { success: false, status } => Err(Failure::Rejection(status)),
    }
}

/// What telling the service of a screenshot amounts to.
pub fn deliver_capture_to_service(delivery: Delivery) -> (result: Result<(), Failure>)
    ensures
        result == delivered(delivery),
{
    match delivery {
        Delivery::NoExecutable(error) => Err(Failure::Executable(error)),
        Delivery::NotSent(error) => Err(Failure::Delivery(error)),
        Delivery::Ended { success, status } => if success {
            Ok(())
        } else {
            Err(Failure::Rejection(status))
        },
    }
}

/// The service was told of the screenshot, or could not be.
pub fn capture_delivered(delivery: Delivery) -> (step: HelperStep)
    ensures
        step@ == after_delivery(delivery),
{
    match deliver_capture_to_service(delivery) {
        Ok(()) => HelperStep::Exit { code: 0, message: None },
        Err(failure) => failed(&failure),
    }
}

/// The last step of a helper whose steps go this way. Steps that are never taken do not count.
pub open spec fn last_step(
    started: Result<(), Failure>,
    response: PortalResponse,
    copied: Result<Vec<u8>, String>,
    delivery: Delivery,
) -> Step {
    match after_service(started) {
        Step::Capture => match after_portal(response) {
            Step::Copy { .. } => match after_copy(copied) {
                Step::Deliver { .. } => after_delivery(delivery),
                step => step,
            },
            step => step,
        },
        step => step,
    }
}

/// The helper always ends, with status 0 or 1. It is 0, and nothing is said, exactly when the
/// service is there and the user either cancelled or has a local screenshot that was copied and
/// taken by the service. Otherwise the message is that of the first step that failed.
pub proof fn law_exit_status(
    started: Result<(), Failure>,
    response: PortalResponse,
    copied: Result<Vec<u8>, String>,
    delivery: Delivery,
)
    ensures
        last_step(started, response, copied, delivery) == done() <==> {
            &&& started is Ok
            &&& {
                ||| response is Cancelled
                ||| response matches PortalResponse::Image { path: Some(_) } && copied is Ok
                    && delivered(delivery) is Ok
            }
        },
        last_step(started, response, copied, delivery) != done() ==> last_step(
            started,
            response,
            copied,
            delivery,
        ) == failing(
            match (started, outcome(response), copied) {
                (Err(failure), _, _) => failure,
                (_, Err(failure), _) => failure,
                (_, _, Err(error)) => Failure::Handoff(error),
                _ => delivered(delivery)->Err_0,
            },
        ),
{
}

/// What the portal answers decides what is captured: a local file is the screenshot, a cancelled
/// selection none, and everything else a failure of its own kind with the error or the seconds that
/// came with it.
pub proof fn law_what_the_portal_answers(path: Vec<u8>, error: String, seconds: u64)
    ensures
        outcome(PortalResponse::Image { path: Some(path) }) == Ok::<_, Failure>(Some(path)),
        outcome(PortalResponse::Cancelled) == Ok::<Option<Vec<u8>>, Failure>(None),
        outcome(PortalResponse::Image { path: None }) == Err::<Option<Vec<u8>>, _>(
            Failure::PortalLocation,
        ),
        outcome(PortalResponse::TimedOut(seconds)) == Err::<Option<Vec<u8>>, _>(
            Failure::PortalTimeout(seconds),
        ),
        outcome(PortalResponse::Failed(error)) == Err::<Option<Vec<u8>>, _>(Failure::Portal(error)),
        outcome(PortalResponse::NoRuntime(error)) == Err::<Option<Vec<u8>>, _>(
            Failure::PortalRuntime(error),
        ),
{
}

/// The service has started, or the screenshot was taken, exactly when the program ran and, for a
/// screenshot, ended in good order; otherwise the failure is that of the part that went wrong.
pub proof fn law_what_the_service_answers(success: bool, status: String, error: String)
    ensures
        service_start(ServiceStart::Started) is Ok,
        service_start(ServiceStart::NoExecutable(error)) == Err::<(), _>(
            Failure::Executable(error),
        ),
        service_start(ServiceStart::NotStarted(error)) == Err::<(), _>(Failure::Service(error)),
        delivered(Delivery::Ended { success, status }) is Ok <==> success,
        !success ==> delivered(Delivery::Ended { success, status }) == Err::<(), _>(
            Failure::Rejection(status),
        ),
        delivered(Delivery::NoExecutable(error)) == Err::<(), _>(Failure::Executable(error)),
        delivered(Delivery::NotSent(error)) == Err::<(), _>(Failure::Delivery(error)),
{
}

/// The helper goes from the service to the portal, copies the very file that the portal named, and
/// hands over the very copy that was made.
pub proof fn law_helper_hands_on_what_it_got(path: Vec<u8>, copy: Vec<u8>)
    ensures
        after_service(Ok(())) == Step::Capture,
        after_portal(PortalResponse::Image { path: Some(path) }) == (Step::Copy { path: path@ }),
        after_copy(Ok(copy)) == (Step::Deliver { copy: copy@ }),
        HelperStep::Capture@ == Step::Capture,
        (HelperStep::Copy { path })@ == (Step::Copy { path: path@ }),
        (HelperStep::Deliver { copy })@ == (Step::Deliver { copy: copy@ }),
{
}

/// However the helper ends, it exits with 0 and says nothing, or with 1 and the message of the
/// failure: after a service that did not start, an answer that is a failure, a copy that could not
/// be made or a delivery that failed the latter, after a cancelled selection and a delivery the
/// former.
pub proof fn law_helper_exits_with_the_failure(
    failure: Failure,
    response: PortalResponse,
    error: String,
    delivery: Delivery,
    code: i32,
    message: String,
)
    ensures
        after_service(Err(failure)) == (Step::Exit { code: 1, message: Some(failure.text()) }),
        outcome(response) == Err::<Option<Vec<u8>>, _>(failure) ==> after_portal(response) == (
        Step::Exit { code: 1, message: Some(failure.text()) }),
        outcome(response) == Ok::<Option<Vec<u8>>, Failure>(None) ==> after_portal(response) == (
        Step::Exit { code: 0, message: None }),
        after_copy(Err(error)) == (Step::Exit {
            code: 1,
            message: Some(Failure::Handoff(error).text()),
        }),
        delivered(delivery) == Err::<(), _>(failure) ==> after_delivery(delivery) == (Step::Exit {
            code: 1,
            message: Some(failure.text()),
        }),
        delivered(delivery) is Ok ==> after_delivery(delivery) == (Step::Exit {
            code: 0,
            message: None,
        }),
        (HelperStep::Exit { code, message: None })@ == (Step::Exit {
            code: code as int,
            message: None,
        }),
        (HelperStep::Exit { code, message: Some(message) })@ == (Step::Exit {
            code: code as int,
            message: Some(message@),
        }),
{
}

/// The portal has exactly the seconds of the setting, however many, and only with zero no limit.
pub proof fn law_the_portal_has_its_seconds(seconds: u64)
    ensures
        deadline(seconds) is None <==> seconds == 0,
        deadline(seconds) matches Some(limit) ==> limit == seconds,
{
}

} // verus!
