//! The session with the device, without its transport.
//!
//! A session brings the device up in a fixed order of exchanges, waits until
//! it reports ready, and then fetches scans one at a time. The protocol is
//! half duplex: one command is out at a time, and the next is sent only when
//! the answer to the last one is in.
//!
//! Nothing here reads or writes. `Lidar::receive` takes the bytes a driver
//! read and answers with what the driver has to do next; the driver sends
//! the telegrams, pauses where asked to, and reads.

use crate::codec::TelegramCodec;
use crate::decode::Decoded;
use crate::grammar::{spec_response, Outcome};
use crate::poller::{spec_wait_for_ready, wait_for_ready, Poll};
use crate::telegram::{
    Application, ApplicationActivation, DeviceState, Error, Request, Response, ResponseView,
    RunResult, SetAccessModeResult, StartMeasurementResult, StopMeasurementResult,
};
use vstd::prelude::*;

verus! {

/// What the answer to an access mode request means.
pub open spec fn spec_set_access_mode(response: ResponseView) -> Result<(), Error> {
    match response {
        ResponseView::SetAccessMode(SetAccessModeResult::Success) => Ok(()),
        ResponseView::SetAccessMode(SetAccessModeResult::Error) => Err(Error::DeviceRejected),
        _ => Err(Error::UnexpectedResponse),
    }
}

/// Checks the answer to an access mode request: granted, refused, or not an
/// answer to it at all.
pub fn set_access_mode(response: &Response) -> (r: Result<(), Error>)
    ensures
        r == spec_set_access_mode(response@),
{
    match response {
        Response::SetAccessMode(SetAccessModeResult::Success) => Ok(()),
        Response::SetAccessMode(SetAccessModeResult::Error) => Err(Error::DeviceRejected),
        _ => Err(Error::UnexpectedResponse),
    }
}

/// What the answer to a start of measurement means.
pub open spec fn spec_start_measurement(response: ResponseView) -> Result<(), Error> {
    match response {
        ResponseView::StartMeasurement(StartMeasurementResult::Success) => Ok(()),
        ResponseView::StartMeasurement(StartMeasurementResult::NotAllowed) => Err(
            Error::DeviceRejected,
        ),
        _ => Err(Error::UnexpectedResponse),
    }
}

/// Checks the answer to a start of measurement.
pub fn start_measurement(response: &Response) -> (r: Result<(), Error>)
    ensures
        r == spec_start_measurement(response@),
{
    match response {
        Response::StartMeasurement(StartMeasurementResult::Success) => Ok(()),
        Response::StartMeasurement(StartMeasurementResult::NotAllowed) => Err(
            Error::DeviceRejected,
        ),
        _ => Err(Error::UnexpectedResponse),
    }
}

/// What the answer to a stop of measurement means.
pub open spec fn spec_stop_measurement(response: ResponseView) -> Result<(), Error> {
    match response {
        ResponseView::StopMeasurement(StopMeasurementResult::Success) => Ok(()),
        ResponseView::StopMeasurement(StopMeasurementResult::NotAllowed) => Err(
            Error::DeviceRejected,
        ),
        _ => Err(Error::UnexpectedResponse),
    }
}

/// Checks the answer to a stop of measurement.
pub fn stop_measurement(response: &Response) -> (r: Result<(), Error>)
    ensures
        r == spec_stop_measurement(response@),
{
    match response {
        Response::StopMeasurement(StopMeasurementResult::Success) => Ok(()),
        Response::StopMeasurement(StopMeasurementResult::NotAllowed) => Err(
            Error::DeviceRejected,
        ),
        _ => Err(Error::UnexpectedResponse),
    }
}

/// What the answer to an application activation means.
pub open spec fn spec_set_active_applications(response: ResponseView) -> Result<(), Error> {
    match response {
        ResponseView::SetActiveApplications => Ok(()),
        _ => Err(Error::UnexpectedResponse),
    }
}

/// Checks the answer to an application activation: only the acknowledgement
/// will do.
pub fn set_active_applications(response: &Response) -> (r: Result<(), Error>)
    ensures
        r == spec_set_active_applications(response@),
{
    match response {
        Response::SetActiveApplications => Ok(()),
        _ => Err(Error::UnexpectedResponse),
    }
}

/// What the answer to a run request means.
pub open spec fn spec_run(response: ResponseView) -> Result<(), Error> {
    match response {
        ResponseView::Run(RunResult::Success) => Ok(()),
        ResponseView::Run(RunResult::Error) => Err(Error::DeviceRejected),
        _ => Err(Error::UnexpectedResponse),
    }
}

/// Checks the answer to a run request.
pub fn run(response: &Response) -> (r: Result<(), Error>)
    ensures
        r == spec_run(response@),
{
    match response {
        Response::Run(RunResult::Success) => Ok(()),
        Response::Run(RunResult::Error) => Err(Error::DeviceRejected),
        _ => Err(Error::UnexpectedResponse),
    }
}

/// What the answer to a scan data query means.
pub open spec fn spec_get_scan_data(response: ResponseView) -> Result<Seq<usize>, Error> {
    match response {
        ResponseView::ScanData(values) => Ok(values),
        _ => Err(Error::UnexpectedResponse),
    }
}

/// Takes the samples out of the answer to a scan data query; any other
/// answer is not what was asked for.
pub fn get_scan_data(response: Response) -> (r: Result<Vec<usize>, Error>)
    ensures
        match r {
            Ok(values) => spec_get_scan_data(response@) == Ok::<Seq<usize>, Error>(values@),
            Err(error) => spec_get_scan_data(response@) == Err::<Seq<usize>, Error>(error),
        },
{
    match response {
        Response::ScanData { values } => Ok(values),
        _ => Err(Error::UnexpectedResponse),
    }
}

/// Where a session stands: which answer it waits for, if any.
#[derive(Clone, Copy, Debug, PartialEq, Eq)]
pub enum Stage {
    /// Bring-up: the access mode was requested.
    SetAccessMode,
    /// Bring-up: the start of measurement was requested.
    StartMeasurement,
    /// Bring-up: field monitoring was switched off.
    DisableField,
    /// Bring-up: ranging was switched on.
    EnableRanging,
    /// Bring-up: run was requested.
    Run,
    /// The device state was asked for, after this many failures in a row.
    WaitForReady { failures: u32 },
    /// Recovery: the stop of measurement was requested.
    RestartStop,
    /// Recovery: the start of measurement was requested.
    RestartStart,
    /// The device is ready and no command is out.
    Ready,
    /// A scan was asked for.
    ScanData,
    /// The session has ended with this error. Nothing leads out of here.
    Failed(Error),
}

/// What a driver has to do next.
#[derive(Clone, Debug, PartialEq, Eq)]
pub enum Progress {
    /// The answer is not whole yet: read more and hand it over.
    NeedMore,
    /// Send this command, then read.
    Send(Request),
    /// Pause for `BACKOFF_SECONDS`, send this command, then read.
    SendAfterBackoff(Request),
    /// Bring-up is complete: the device is ready for scan queries.
    Ready,
    /// The scan that was asked for.
    ScanData(Vec<usize>),
    /// The session has ended with this error.
    Failed(Error),
}

/// A `Progress` as a mathematical value.
pub enum ProgressView {
    NeedMore,
    Send(Request),
    SendAfterBackoff(Request),
    Ready,
    ScanData(Seq<usize>),
    Failed(Error),
}

impl View for Progress {
    type V = ProgressView;

    open spec fn view(&self) -> ProgressView {
        match self {
            Progress::NeedMore => ProgressView::NeedMore,
            Progress::Send(request) => ProgressView::Send(*request),
            Progress::SendAfterBackoff(request) => ProgressView::SendAfterBackoff(*request),
            Progress::Ready => ProgressView::Ready,
            Progress::ScanData(values) => ProgressView::ScanData(values@),
            Progress::Failed(error) => ProgressView::Failed(*error),
        }
    }
}

/// The stage that follows a checked answer, with the command to send there;
/// the failed stage where the check found an error.
pub open spec fn proceed(checked: Result<(), Error>, next: Stage, request: Request) -> (
    Stage,
    ProgressView,
) {
    match checked {
        Ok(_) => (next, ProgressView::Send(request)),
        Err(error) => (Stage::Failed(error), ProgressView::Failed(error)),
    }
}

/// The transitions of a session: the stage after `response` arrived in
/// `stage`, and what the driver does next.
///
/// Bring-up asks for the access mode, starts the measurement, switches field
/// monitoring off and ranging on, and requests run; each refusal and each
/// answer to something else ends the session. Then the device state is
/// polled as `spec_wait_for_ready` decides; a restart stops and starts the
/// measurement and polls again from a count of 0. Once ready, a scan query
/// is answered by scan data and by nothing else.
pub open spec fn spec_advance(stage: Stage, response: ResponseView) -> (Stage, ProgressView) {
    match stage {
        Stage::SetAccessMode => proceed(
            spec_set_access_mode(response),
            Stage::StartMeasurement,
            Request::StartMeasurement,
        ),
        Stage::StartMeasurement => proceed(
            spec_start_measurement(response),
            Stage::DisableField,
            Request::SetApplicationActivation(Application::Field, ApplicationActivation::Disabled),
        ),
        Stage::DisableField => proceed(
            spec_set_active_applications(response),
            Stage::EnableRanging,
            Request::SetApplicationActivation(Application::Ranging, ApplicationActivation::Enabled),
        ),
        Stage::EnableRanging => proceed(
            spec_set_active_applications(response),
            Stage::Run,
            Request::Run,
        ),
        Stage::Run => proceed(
            spec_run(response),
            Stage::WaitForReady { failures: 0 },
            Request::DeviceState,
        ),
        Stage::WaitForReady { failures } => match spec_wait_for_ready(failures, response) {
            Poll::Ready => (Stage::Ready, ProgressView::Ready),
            Poll::Fatal => (
                Stage::Failed(Error::DeviceRejected),
                ProgressView::Failed(Error::DeviceRejected),
            ),
            Poll::Retry(count) => (
                Stage::WaitForReady { failures: count },
                ProgressView::SendAfterBackoff(Request::DeviceState),
            ),
            Poll::Restart => (
                Stage::RestartStop,
                ProgressView::SendAfterBackoff(Request::StopMeasurement),
            ),
        },
        Stage::RestartStop => proceed(
            spec_stop_measurement(response),
            Stage::RestartStart,
            Request::StartMeasurement,
        ),
        Stage::RestartStart => proceed(
            spec_start_measurement(response),
            Stage::WaitForReady { failures: 0 },
            Request::DeviceState,
        ),
        Stage::Ready => (
            Stage::Failed(Error::UnexpectedResponse),
            ProgressView::Failed(Error::UnexpectedResponse),
        ),
        Stage::ScanData => match spec_get_scan_data(response) {
            Ok(values) => (Stage::Ready, ProgressView::ScanData(values)),
            Err(error) => (Stage::Failed(error), ProgressView::Failed(error)),
        },
        Stage::Failed(error) => (Stage::Failed(error), ProgressView::Failed(error)),
    }
}

/// Goes on to `next` with `request` where `checked` is fine.
fn proceed_with(checked: Result<(), Error>, next: Stage, request: Request) -> (r: (
    Stage,
    Progress,
))
    ensures
        (r.0, r.1@) == proceed(checked, next, request),
{
    match checked {
        Ok(_) => (next, Progress::Send(request)),
        Err(error) => (Stage::Failed(error), Progress::Failed(error)),
    }
}

/// Takes one step of the session: from the stage and the response that
/// arrived in it to the next stage and what the driver does next.
pub fn advance(stage: Stage, response: Response) -> (r: (Stage, Progress))
    ensures
        (r.0, r.1@) == spec_advance(stage, response@),
{
    match stage {
        Stage::SetAccessMode => proceed_with(
            set_access_mode(&response),
            Stage::StartMeasurement,
            Request::StartMeasurement,
        ),
        Stage::StartMeasurement => proceed_with(
            start_measurement(&response),
            Stage::DisableField,
            Request::SetApplicationActivation(Application::Field, ApplicationActivation::Disabled),
        ),
        Stage::DisableField => proceed_with(
            set_active_applications(&response),
            Stage::EnableRanging,
            Request::SetApplicationActivation(Application::Ranging, ApplicationActivation::Enabled),
        ),
        Stage::EnableRanging => proceed_with(
            set_active_applications(&response),
            Stage::Run,
            Request::Run,
        ),
        Stage::Run => proceed_with(
            run(&response),
            Stage::WaitForReady { failures: 0 },
            Request::DeviceState,
        ),
        Stage::WaitForReady { failures } => match wait_for_ready(failures, &response) {
            Poll::Ready => (Stage::Ready, Progress::Ready),
            Poll::Fatal => (
                Stage::Failed(Error::DeviceRejected),
                Progress::Failed(Error::DeviceRejected),
            ),
            Poll::Retry(count) => (
                Stage::WaitForReady { failures: count },
                Progress::SendAfterBackoff(Request::DeviceState),
            ),
            Poll::Restart => (
                Stage::RestartStop,
                Progress::SendAfterBackoff(Request::StopMeasurement),
            ),
        },
        Stage::RestartStop => proceed_with(
            stop_measurement(&response),
            Stage::RestartStart,
            Request::StartMeasurement,
        ),
        Stage::RestartStart => proceed_with(
            start_measurement(&response),
            Stage::WaitForReady { failures: 0 },
            Request::DeviceState,
        ),
        Stage::Ready => (
            Stage::Failed(Error::UnexpectedResponse),
            Progress::Failed(Error::UnexpectedResponse),
        ),
        Stage::ScanData => match get_scan_data(response) {
            Ok(values) => (Stage::Ready, Progress::ScanData(values)),
            Err(error) => (Stage::Failed(error), Progress::Failed(error)),
        },
        Stage::Failed(error) => (Stage::Failed(error), Progress::Failed(error)),
    }
}

/// What receiving bytes does to a session: to its stage and to the bytes it
/// holds, and what the driver does next.
///
/// A failed session takes nothing in. Otherwise the bytes are appended and
/// decoded from the start of the buffer: while no telegram is whole the
/// session waits for more; bytes that can begin no telegram end it; a whole
/// telegram is taken off the buffer and moves the session as `spec_advance` says.
pub open spec fn spec_receive(stage: Stage, unparsed: Seq<u8>, received: Seq<u8>) -> (
    Stage,
    Seq<u8>,
    ProgressView,
) {
    match stage {
        Stage::Failed(error) => (stage, unparsed, ProgressView::Failed(error)),
        _ => match spec_response(unparsed + received) {
            Outcome::Incomplete => (stage, unparsed + received, ProgressView::NeedMore),
            Outcome::NoMatch => (
                Stage::Failed(Error::ProtocolViolation),
                unparsed + received,
                ProgressView::Failed(Error::ProtocolViolation),
            ),
            Outcome::Matched(response, end) => (
                spec_advance(stage, response).0,
                (unparsed + received).skip(end),
                spec_advance(stage, response).1,
            ),
        },
    }
}

/// A session with the device: the stage it is in and the bytes received and
/// not yet consumed.
pub struct Lidar {
    codec: TelegramCodec,
    stage: Stage,
}

impl Lidar {
    /// The stage of the session.
    pub closed spec fn stage(&self) -> Stage {
        self.stage
    }

    /// The bytes received and not yet consumed into a telegram.
    pub closed spec fn unparsed(&self) -> Seq<u8> {
        self.codec@
    }

    /// Opens a session. It holds no bytes and waits for the answer to the
    /// access mode request, which is the command to send first.
    pub fn connect() -> (opened: (Lidar, Request))
        ensures
            opened.0.stage() == Stage::SetAccessMode,
            opened.0.unparsed() == Seq::<u8>::empty(),
            opened.1 == Request::SetAccessMode,
    {
        (Lidar { codec: TelegramCodec::new(), stage: Stage::SetAccessMode }, Request::SetAccessMode)
    }

    /// The stage of the session.
    pub fn current_stage(&self) -> (stage: Stage)
        ensures
            stage == self.stage(),
    {
        self.stage
    }

    /// The bytes received and not yet consumed into a telegram.
    pub fn buffered(&self) -> (bytes: &[u8])
        ensures
            bytes@ == self.unparsed(),
    {
        self.codec.unparsed()
    }

    /// Takes in the bytes a driver read, and says what the driver does next.
    pub fn receive(&mut self, received: &[u8]) -> (progress: Progress)
        ensures
            (final(self).stage(), final(self).unparsed(), progress@) == spec_receive(
                old(self).stage(),
                old(self).unparsed(),
                received@,
            ),
    {
        if let Stage::Failed(error) = self.stage {
            return Progress::Failed(error);
        }
        match self.codec.feed(received) {
            Decoded::Incomplete => Progress::NeedMore,
            Decoded::NoMatch => {
                self.stage = Stage::Failed(Error::ProtocolViolation);
                Progress::Failed(Error::ProtocolViolation)
            },
            Decoded::Matched(response, _) => {
                let (next, progress) = advance(self.stage, response);
                self.stage = next;
                progress
            },
        }
    }

    /// Begins one scan round trip. A session that is ready goes on to wait
    /// for scan data and answers with the query to send; in any other stage
    /// nothing changes and there is nothing to send.
    pub fn poll_data(&mut self) -> (request: Option<Request>)
        ensures
            final(self).unparsed() == old(self).unparsed(),
            old(self).stage() == Stage::Ready ==> request == Some(Request::ScanData)
                && final(self).stage() == Stage::ScanData,
            old(self).stage() != Stage::Ready ==> request is None && final(self).stage() == old(
                self,
            ).stage(),
    {
        match self.stage {
            Stage::Ready => {
                self.stage = Stage::ScanData;
                Some(Request::ScanData)
            },
            _ => None,
        }
    }
}

/// A restart is one pause, one stop and one start of the measurement, in
/// this order, and leaves the wait with a failure count of 0: the answer that
/// makes the count reach the threshold asks for the stop, the stop's
/// acknowledgement for the start, and the start's acknowledgement for the
/// next device state query.
pub proof fn lemma_restart_stops_then_starts(failures: u32, response: ResponseView)
    requires
        spec_wait_for_ready(failures, response) is Restart,
    ensures
        spec_advance(Stage::WaitForReady { failures }, response) == (
            Stage::RestartStop,
            ProgressView::SendAfterBackoff(Request::StopMeasurement),
        ),
        spec_advance(
            Stage::RestartStop,
            ResponseView::StopMeasurement(StopMeasurementResult::Success),
        ) == (Stage::RestartStart, ProgressView::Send(Request::StartMeasurement)),
        spec_advance(
            Stage::RestartStart,
            ResponseView::StartMeasurement(StartMeasurementResult::Success),
        ) == (Stage::WaitForReady { failures: 0 }, ProgressView::Send(Request::DeviceState)),
{
}

/// The error state ends the session at once, whatever the failure count: no
/// pause, no retry, no restart.
pub proof fn lemma_error_state_ends_session(failures: u32)
    ensures
        spec_advance(
            Stage::WaitForReady { failures },
            ResponseView::DeviceState(DeviceState::Error),
        ) == (Stage::Failed(Error::DeviceRejected), ProgressView::Failed(Error::DeviceRejected)),
{
}

/// Nothing leads out of a failed session: whatever arrives, it stays failed
/// with the same error and holds the same bytes.
pub proof fn lemma_failed_is_final(error: Error, unparsed: Seq<u8>, received: Seq<u8>)
    ensures
        spec_receive(Stage::Failed(error), unparsed, received) == (
            Stage::Failed(error),
            unparsed,
            ProgressView::Failed(error),
        ),
{
}

} // verus!
