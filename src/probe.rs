use vstd::prelude::*;
use crate::entry::{EntryModel, M3U8Entry};

verus! {

/// What the single liveness probe of an entry's URL came back with.
#[derive(Clone, Copy, Debug, PartialEq, Eq, Structural)]
pub enum ProbeOutcome {
    /// A response arrived with this status code.
    Status(u16),
    /// No response arrived within the timeout.
    TimedOut,
    /// The connection or the transfer failed.
    TransportError,
}

/// Why an entry was judged unreachable.
#[derive(Clone, Copy, Debug, PartialEq, Eq, Structural)]
pub enum InvalidReason {
    /// The response carried a status that is neither success nor redirection.
    Status(u16),
    /// The probe exceeded its timeout.
    TimedOut,
    /// The probe failed to connect or to transfer.
    TransportError,
}

/// The classification of one probed entry.
#[derive(Debug)]
pub enum Verdict {
    /// The entry is reachable and goes to the output.
    Valid(M3U8Entry),
    /// The entry is unreachable, for the given reason, and is dropped.
    Invalid(M3U8Entry, InvalidReason),
}

/// A status code in the success (2xx) or redirection (3xx) class.
pub open spec fn is_live_status(code: u16) -> bool {
    200 <= code < 400
}

/// The probe found the URL reachable.
pub open spec fn probe_is_valid(outcome: ProbeOutcome) -> bool {
    match outcome {
        ProbeOutcome::Status(code) => is_live_status(code),
        _ => false,
    }
}

/// The reason recorded for an outcome that is not valid.
pub open spec fn reason_of(outcome: ProbeOutcome) -> InvalidReason {
    match outcome {
        ProbeOutcome::Status(code) => InvalidReason::Status(code),
        ProbeOutcome::TimedOut => InvalidReason::TimedOut,
        ProbeOutcome::TransportError => InvalidReason::TransportError,
    }
}

/// The verdict owed to `entry` whose probe came back with `outcome`.
pub open spec fn verdict_of(entry: M3U8Entry, outcome: ProbeOutcome) -> Verdict {
    if probe_is_valid(outcome) {
        Verdict::Valid(entry)
    } else {
        Verdict::Invalid(entry, reason_of(outcome))
    }
}

/// Whether a status code is in the success or the redirection class.
pub fn is_success_or_redirection(code: u16) -> (r: bool)
    ensures
        r == is_live_status(code),
{
    200 <= code && code < 400
}

/// Classifies an entry by the outcome of its probe: valid exactly when a
/// response arrived with a success or redirection status.
pub fn check_url_validity(entry: M3U8Entry, outcome: ProbeOutcome) -> (v: Verdict)
    ensures
        v == verdict_of(entry, outcome),
{
    match outcome {
        ProbeOutcome::Status(code) => {
            if is_success_or_redirection(code) {
                Verdict::Valid(entry)
            } else {
                Verdict::Invalid(entry, InvalidReason::Status(code))
            }
        },
        ProbeOutcome::TimedOut => Verdict::Invalid(entry, InvalidReason::TimedOut),
        ProbeOutcome::TransportError => Verdict::Invalid(entry, InvalidReason::TransportError),
    }
}

/// The entries handed to the writer over a run whose probes reported
/// `reports`, in the order the reports arrived.
pub open spec fn written(reports: Seq<(EntryModel, ProbeOutcome)>) -> Seq<EntryModel>
    decreases reports.len(),
{
    if reports.len() == 0 {
        Seq::empty()
    } else {
        let w = written(reports.drop_last());
        if probe_is_valid(reports.last().1) {
            w.push(reports.last().0)
        } else {
            w
        }
    }
}

/// The number of reports over a run whose probe was not valid.
pub open spec fn rejected(reports: Seq<(EntryModel, ProbeOutcome)>) -> nat
    decreases reports.len(),
{
    if reports.len() == 0 {
        0
    } else {
        rejected(reports.drop_last()) + if probe_is_valid(reports.last().1) {
            0nat
        } else {
            1nat
        }
    }
}

/// The receiving end of a run: takes the probe reports in completion order
/// and decides, for each, whether its entry is written.
pub struct Collector {
    reports: Ghost<Seq<(EntryModel, ProbeOutcome)>>,
}

impl Collector {
    /// The reports received so far, in order of arrival.
    pub closed spec fn reports(&self) -> Seq<(EntryModel, ProbeOutcome)> {
        self.reports@
    }

    /// A collector that has received nothing.
    pub fn new() -> (c: Collector)
        ensures
            c.reports() == Seq::<(EntryModel, ProbeOutcome)>::empty(),
    {
        Collector { reports: Ghost(Seq::empty()) }
    }

    /// Takes the report of one finished probe and returns its verdict; a
    /// `Valid` verdict hands the entry to the writer.
    pub fn receive(&mut self, entry: M3U8Entry, outcome: ProbeOutcome) -> (v: Verdict)
        ensures
            final(self).reports() == old(self).reports().push((entry@, outcome)),
            v == verdict_of(entry, outcome),
    {
        self.reports = Ghost(self.reports@.push((entry@, outcome)));
        check_url_validity(entry, outcome)
    }
}

} // verus!
