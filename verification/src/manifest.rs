//! The run/manifest state machine: the closed set of per-attempt outcomes,
//! the pre-run decision (blacklist, then skip-finished, then run), the
//! completion rule mapping an exit report to an outcome, and the append-only
//! manifest of entries, one per attempt, in generation order.

use vstd::prelude::*;
use vstd::string::*;

use crate::text::str_eq;
use crate::text::views_of;
use crate::types::MscclExperimentParams;

verus! {

/// Describes the result of an experiment attempt. The vocabulary is closed:
/// every attempt records exactly one of these five outcomes.
#[derive(Clone, Copy, Debug, PartialEq, Eq, Structural)]
pub enum ResultDescription {
    Success,
    PartialFailure,
    Failure,
    Skipped,
    Blacklisted,
}

/// The human-readable label of an outcome.
pub open spec fn outcome_text(r: ResultDescription) -> Seq<char> {
    match r {
        ResultDescription::Success => "Success"@,
        ResultDescription::PartialFailure => "Partial Failure"@,
        ResultDescription::Failure => "Failure"@,
        ResultDescription::Skipped => "Skipped"@,
        ResultDescription::Blacklisted => "Blacklisted"@,
    }
}

impl ResultDescription {
    /// Renders the outcome as its display label.
    pub fn describe(&self) -> (s: String)
        ensures
            s@ == outcome_text(*self),
    {
        match self {
            ResultDescription::Success => String::from_str("Success"),
            ResultDescription::PartialFailure => String::from_str("Partial Failure"),
            ResultDescription::Failure => String::from_str("Failure"),
            ResultDescription::Skipped => String::from_str("Skipped"),
            ResultDescription::Blacklisted => String::from_str("Blacklisted"),
        }
    }
}

/// One immutable record per (descriptor, repetition) attempt: the
/// identifying parameters and the attempt's outcome.
#[derive(Clone, Debug)]
pub struct ManifestEntry {
    pub collective: String,
    pub op: String,
    pub dtype: String,
    pub algorithm: String,
    pub num_channels: u64,
    pub num_chunks: u64,
    pub num_gpus: u64,
    pub buffer_size_factor: u64,
    pub overall_result: ResultDescription,
}

/// The mathematical image of a manifest entry.
pub ghost struct ManifestEntryModel {
    pub collective: Seq<char>,
    pub op: Seq<char>,
    pub dtype: Seq<char>,
    pub algorithm: Seq<char>,
    pub num_channels: u64,
    pub num_chunks: u64,
    pub num_gpus: u64,
    pub buffer_size_factor: u64,
    pub overall_result: ResultDescription,
}

impl View for ManifestEntry {
    type V = ManifestEntryModel;

    open spec fn view(&self) -> ManifestEntryModel {
        ManifestEntryModel {
            collective: self.collective@,
            op: self.op@,
            dtype: self.dtype@,
            algorithm: self.algorithm@,
            num_channels: self.num_channels,
            num_chunks: self.num_chunks,
            num_gpus: self.num_gpus,
            buffer_size_factor: self.buffer_size_factor,
            overall_result: self.overall_result,
        }
    }
}

/// The entry that records `outcome` for the given descriptor.
pub open spec fn entry_for_spec(
    d: crate::types::ExperimentParamsModel,
    outcome: ResultDescription,
) -> ManifestEntryModel {
    ManifestEntryModel {
        collective: d.nc_collective,
        op: d.nc_op,
        dtype: d.nc_dtype,
        algorithm: d.algorithm,
        num_channels: d.ms_channels,
        num_chunks: d.ms_chunks,
        num_gpus: d.total_gpus,
        buffer_size_factor: d.buffer_size,
        overall_result: outcome,
    }
}

/// Builds the manifest entry recording `outcome` for one attempt of the
/// given descriptor.
pub fn manifest_entry_for(d: &MscclExperimentParams, outcome: ResultDescription) -> (e:
    ManifestEntry)
    ensures
        e@ == entry_for_spec(d@, outcome),
{
    ManifestEntry {
        collective: d.nc_collective.clone(),
        op: d.nc_op.clone(),
        dtype: d.nc_dtype.clone(),
        algorithm: d.algorithm.clone(),
        num_channels: d.ms_channels,
        num_chunks: d.ms_chunks,
        num_gpus: d.total_gpus,
        buffer_size_factor: d.buffer_size,
        overall_result: outcome,
    }
}

/// What happens to an attempt before any process is started.
#[derive(Clone, Copy, Debug, PartialEq, Eq, Structural)]
pub enum PreRunDecision {
    Blacklisted,
    Skipped,
    Run,
}

/// Whether the descriptor's companion artifact is on the denylist.
pub open spec fn blacklisted_spec(xml: Seq<char>, blacklist: Seq<Seq<char>>) -> bool {
    exists|k: int| 0 <= k < blacklist.len() && blacklist[k] == xml
}

/// The pre-run decision: the blacklist is checked first and short-circuits
/// everything; then, under the skip-finished policy, an attempt whose result
/// artifact already exists is skipped; otherwise the attempt runs.
pub open spec fn pre_run_decision_spec(
    xml: Seq<char>,
    blacklist: Seq<Seq<char>>,
    skip_finished: bool,
    output_exists: bool,
) -> PreRunDecision {
    if blacklisted_spec(xml, blacklist) {
        PreRunDecision::Blacklisted
    } else if skip_finished && output_exists {
        PreRunDecision::Skipped
    } else {
        PreRunDecision::Run
    }
}

/// Decides what happens to one attempt before any process is started.
/// `output_exists` reports whether the attempt's result artifact is already
/// present; the caller performs that existence check.
pub fn pre_run_decision(
    xml_file: &str,
    blacklist: &Vec<String>,
    skip_finished: bool,
    output_exists: bool,
) -> (d: PreRunDecision)
    ensures
        d == pre_run_decision_spec(xml_file@, views_of(blacklist@), skip_finished, output_exists),
{
    let mut k: usize = 0;
    while k < blacklist.len()
        invariant
            k <= blacklist.len(),
            forall|j: int| 0 <= j < k ==> views_of(blacklist@)[j] != xml_file@,
        decreases blacklist.len() - k,
    {
        if str_eq(blacklist[k].as_str(), xml_file) {
            proof {
                assert(views_of(blacklist@)[k as int] == xml_file@);
            }
            return PreRunDecision::Blacklisted;
        }
        k += 1;
    }
    proof {
        assert(!blacklisted_spec(xml_file@, views_of(blacklist@)));
    }
    if skip_finished && output_exists {
        PreRunDecision::Skipped
    } else {
        PreRunDecision::Run
    }
}

/// The completion rule. A failing exit status is a `Failure` unless the
/// caller set the ignore-exit-code policy (the benchmark is known to exit
/// nonzero on benign conditions). Otherwise the outcome follows the parsed
/// row count, and in particular a successful (or ignored) exit that produced
/// zero parsed rows is recorded as `PartialFailure`, never `Success`: an
/// attempt only counts as successful once at least one measurement row came
/// back.
pub open spec fn completion_outcome_spec(
    exit_success: bool,
    ignore_exit_code: bool,
    rows_parsed: nat,
) -> ResultDescription {
    if !exit_success && !ignore_exit_code {
        ResultDescription::Failure
    } else if rows_parsed > 0 {
        ResultDescription::Success
    } else {
        ResultDescription::PartialFailure
    }
}

/// Maps one finished attempt's exit report to its recorded outcome.
pub fn completion_outcome(exit_success: bool, ignore_exit_code: bool, rows_parsed: usize) -> (r:
    ResultDescription)
    ensures
        r == completion_outcome_spec(exit_success, ignore_exit_code, rows_parsed as nat),
{
    if !exit_success && !ignore_exit_code {
        ResultDescription::Failure
    } else if rows_parsed > 0 {
        ResultDescription::Success
    } else {
        ResultDescription::PartialFailure
    }
}

/// The views of a sequence of manifest entries.
pub open spec fn entry_views(es: Seq<ManifestEntry>) -> Seq<ManifestEntryModel> {
    es.map_values(|e: ManifestEntry| e@)
}

/// The append-only manifest: one entry per attempt, appended exactly once,
/// in generation order, never mutated or removed.
pub struct ManifestTracker {
    entries: Vec<ManifestEntry>,
}

impl View for ManifestTracker {
    type V = Seq<ManifestEntryModel>;

    closed spec fn view(&self) -> Seq<ManifestEntryModel> {
        entry_views(self.entries@)
    }
}

impl ManifestTracker {
    /// An empty manifest.
    pub fn new() -> (t: ManifestTracker)
        ensures
            t@ == Seq::<ManifestEntryModel>::empty(),
    {
        let t = ManifestTracker { entries: Vec::new() };
        proof {
            assert(t@ =~= Seq::<ManifestEntryModel>::empty());
        }
        t
    }

    /// Appends one attempt's entry; everything already recorded is kept
    /// unchanged.
    pub fn record(&mut self, e: ManifestEntry)
        ensures
            final(self)@ == old(self)@.push(e@),
    {
        let ghost pre = self.entries@;
        self.entries.push(e);
        proof {
            assert(entry_views(pre.push(e)) =~= entry_views(pre).push(e@));
        }
    }

    /// How many attempts have been recorded.
    pub fn len(&self) -> (n: usize)
        ensures
            n == self@.len(),
    {
        self.entries.len()
    }

    /// The recorded entries, in order of recording.
    pub fn entries(&self) -> (es: &Vec<ManifestEntry>)
        ensures
            es@.len() == self@.len(),
            forall|i: int| 0 <= i < es@.len() ==> (#[trigger] es@[i])@ == self@[i],
    {
        &self.entries
    }
}

} // verus!
