//! The telegrams of the protocol as values: what the client sends and what
//! the device answers.

use vstd::prelude::*;

verus! {

/// An operating mode of the device that can be switched on and off.
#[derive(Clone, Copy, Debug, PartialEq, Eq)]
pub enum Application {
    /// Field monitoring.
    Field,
    /// Ranging.
    Ranging,
}

/// Whether an application is to run.
#[derive(Clone, Copy, Debug, PartialEq, Eq)]
pub enum ApplicationActivation {
    Enabled,
    Disabled,
}

/// A command of the client.
#[derive(Clone, Copy, Debug, PartialEq, Eq)]
pub enum Request {
    /// Asks for the operating state.
    DeviceState,
    /// Asks for the access level that configuration needs.
    SetAccessMode,
    StartMeasurement,
    StopMeasurement,
    /// Switches one application on or off.
    SetApplicationActivation(Application, ApplicationActivation),
    /// Leaves configuration and starts operation.
    Run,
    /// Asks for one scan.
    ScanData,
}

/// The operating state the device reports.
#[derive(Clone, Copy, Debug, PartialEq, Eq)]
pub enum DeviceState {
    Busy,
    Ready,
    Error,
}

/// The answer to an access mode request.
#[derive(Clone, Copy, Debug, PartialEq, Eq)]
pub enum SetAccessModeResult {
    Error,
    Success,
}

/// The answer to a start of measurement.
#[derive(Clone, Copy, Debug, PartialEq, Eq)]
pub enum StartMeasurementResult {
    Success,
    NotAllowed,
}

/// The answer to a stop of measurement.
#[derive(Clone, Copy, Debug, PartialEq, Eq)]
pub enum StopMeasurementResult {
    Success,
    NotAllowed,
}

/// The answer to a run request.
#[derive(Clone, Copy, Debug, PartialEq, Eq)]
pub enum RunResult {
    Error,
    Success,
}

/// An answer of the device.
#[derive(Clone, Debug, PartialEq, Eq)]
pub enum Response {
    DeviceState(DeviceState),
    SetAccessMode(SetAccessModeResult),
    StartMeasurement(StartMeasurementResult),
    StopMeasurement(StopMeasurementResult),
    /// Acknowledges an application activation; carries nothing.
    SetActiveApplications,
    Run(RunResult),
    /// One scan: the distance samples in the order the telegram lists them.
    ScanData { values: Vec<usize> },
}

/// A `Response` as a mathematical value: the samples of a scan are a sequence.
pub enum ResponseView {
    DeviceState(DeviceState),
    SetAccessMode(SetAccessModeResult),
    StartMeasurement(StartMeasurementResult),
    StopMeasurement(StopMeasurementResult),
    SetActiveApplications,
    Run(RunResult),
    ScanData(Seq<usize>),
}

impl View for Response {
    type V = ResponseView;

    open spec fn view(&self) -> ResponseView {
        match self {
            Response::DeviceState(state) => ResponseView::DeviceState(*state),
            Response::SetAccessMode(result) => ResponseView::SetAccessMode(*result),
            Response::StartMeasurement(result) => ResponseView::StartMeasurement(*result),
            Response::StopMeasurement(result) => ResponseView::StopMeasurement(*result),
            Response::SetActiveApplications => ResponseView::SetActiveApplications,
            Response::Run(result) => ResponseView::Run(*result),
            Response::ScanData { values } => ResponseView::ScanData(values@),
        }
    }
}

/// Why a session ended.
#[derive(Clone, Copy, Debug, PartialEq, Eq)]
pub enum Error {
    /// The received bytes cannot begin any telegram of the grammar.
    ProtocolViolation,
    /// The device answered a command with a refusal, or reported the error state.
    DeviceRejected,
    /// A well-formed telegram arrived that does not answer the command sent.
    UnexpectedResponse,
}

} // verus!
