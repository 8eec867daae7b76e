//! The signal to the report consumer that the index has changed.
use vstd::prelude::*;
use std::sync::mpsc::Sender;

verus! {

#[verifier::external_type_specification]
#[verifier::external_body]
#[verifier::reject_recursive_types(T)]
pub struct ExSender<T>(Sender<T>);

/// What the report consumer is asked to do.
#[derive(Clone, Copy, PartialEq, Eq, Structural, Debug)]
pub enum ReportThreadCommand {
    Quit,
    Refresh,
}

/// What the report consumer does on a command.
#[derive(Clone, Copy, PartialEq, Eq, Structural, Debug)]
pub enum ReportStep {
    /// Leave the loop.
    Stop,
    /// Render the report again.
    Render,
}

pub fn report_step(command: ReportThreadCommand) -> (r: ReportStep)
    ensures
        r == (match command {
            ReportThreadCommand::Quit => ReportStep::Stop,
            ReportThreadCommand::Refresh => ReportStep::Render,
        }),
{
    match command {
        ReportThreadCommand::Quit => ReportStep::Stop,
        ReportThreadCommand::Refresh => ReportStep::Render,
    }
}

/// Relies on `Sender::send`, which hands the command to the consumer's thread
/// without waiting; it fails only when that thread has ended, and the signal
/// is then dropped.
#[verifier::external_body]
fn send_command(channel: &Sender<ReportThreadCommand>, command: ReportThreadCommand) {
    let _ = channel.send(command);
}

/// Asks the report consumer to render the report again.
pub fn update_report(channel: &Sender<ReportThreadCommand>) {
    send_command(channel, ReportThreadCommand::Refresh)
}

} // verus!
