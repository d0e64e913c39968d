//! Load test patterns.
//!
//! - [`request`]: request/response
//! - [`producer_consumer`]: rate-controlled producers, free-running consumers
//! - [`async_task`]: submit and poll
//!
//! A pattern decides; the caller acts. [`RunStep`] lists what a run does from start to end.
//! Each worker of a run is a small machine: it names an action, the caller performs it and
//! reports the event, and the machine names the next action.

pub mod async_task;
pub mod producer_consumer;
pub mod request;
pub mod work;

use crate::float::{law_below, law_positive, lemma_positive_order, lemma_whole, whole, Float,
    ONE_THOUSAND, ONE_THOUSANDTH};
use crate::span::Span;
use crate::text::{joined, joined_text, slices};
use vstd::prelude::*;
use vstd::string::*;

verus! {

/// What a group of workers does in a run.
#[derive(Clone, Copy, Debug, PartialEq, Eq, Structural)]
pub enum Role {
    /// Send requests and wait for the responses.
    Requesters,
    /// Produce items at the controlled rate.
    Producers,
    /// Consume items in their own loops.
    Consumers,
    /// Submit tasks at the controlled rate.
    Submitters,
    /// Poll submitted tasks.
    Pollers,
}

/// The flags that workers watch.
#[derive(Clone, Copy, Debug, PartialEq, Eq, Structural)]
pub enum Signal {
    /// Watched by every worker but submitters, and by the snapshots.
    Running,
    /// Watched by submitters.
    Submitting,
}

/// The stages of a run.
///
/// An operation belongs to the stage in which its permit came. The results of a run are
/// those of the measured stage alone.
#[derive(Clone, Copy, Debug, PartialEq, Eq, Structural)]
pub enum Stage {
    /// The rate still rises.
    Ramp,
    /// The ramp, if there is one, is over.
    Measured,
}

/// The stage of what happens now.
pub fn stage(in_ramp: bool) -> (r: Stage)
    ensures
        r == (if in_ramp {
            Stage::Ramp
        } else {
            Stage::Measured
        }),
{
    if in_ramp {
        Stage::Ramp
    } else {
        Stage::Measured
    }
}

/// One for each stage, such as the statistics of a group of workers.
#[derive(Clone)]
pub struct Staged<S> {
    /// That of the ramp.
    pub ramp: S,
    /// That of the measured stage.
    pub measured: S,
}

impl<S> Staged<S> {
    /// The one of the given stage.
    pub fn of(&self, stage: Stage) -> (r: &S)
        ensures
            *r == (match stage {
                Stage::Ramp => self.ramp,
                Stage::Measured => self.measured,
            }),
    {
        match stage {
            Stage::Ramp => &self.ramp,
            Stage::Measured => &self.measured,
        }
    }
}

/// One step of a run.
#[derive(Clone, Copy, Debug, PartialEq, Eq, Structural)]
pub enum RunStep {
    /// Let time pass.
    Sleep(Span),
    /// Start this many workers.
    Spawn(Role, usize),
    /// Start the periodic snapshots.
    SpawnSnapshots,
    /// Raise the rate in a straight line.
    Ramp { from: Float, to: Float, over: Span },
    /// Note that the ramp is over: permits that come from here on are for the measured stage.
    EndRamp,
    /// Clear a flag.
    Stop(Signal),
    /// Wait for workers to end.
    Join(Role),
    /// Wait for tasks in flight, at most this long.
    Drain(Span),
    /// Wait for the snapshots to end.
    JoinSnapshots,
}

/// A burst factor held to the range from one thousandth to one thousand.
pub open spec fn spec_clamp_burst(factor: Float) -> Float {
    let low = Float { bits: ONE_THOUSANDTH };
    let high = Float { bits: ONE_THOUSAND };
    if factor.below(low) {
        low
    } else if high.below(factor) {
        high
    } else {
        factor
    }
}

/// A burst factor held to the range from one thousandth to one thousand.
pub fn clamp_burst(factor: Float) -> (r: Float)
    ensures
        r == spec_clamp_burst(factor),
        !factor.is_nan() ==> 0 < r.units() <= whole(1000),
{
    let low: Float = Float { bits: ONE_THOUSANDTH };
    let high: Float = Float { bits: ONE_THOUSAND };
    proof {
        lemma_positive_order(low, high);
        vstd::arithmetic::power2::lemma2_to64();
        vstd::arithmetic::power2::lemma2_to64_rest();
        lemma_whole(ONE_THOUSAND, 1000, 43);
    }
    factor.clamp(low, high)
}

/// What a snapshot writes, and where.
#[derive(Debug)]
pub enum SnapshotOutput<T> {
    /// A line of the output file.
    File(T),
    /// A line on standard output.
    Stdout(T),
    /// A progress line, which carries the elapsed time.
    Progress(T),
}

impl View for SnapshotOutput<String> {
    type V = SnapshotOutput<Seq<char>>;

    open spec fn view(&self) -> SnapshotOutput<Seq<char>> {
        match self {
            SnapshotOutput::File(line) => SnapshotOutput::File(line@),
            SnapshotOutput::Stdout(line) => SnapshotOutput::Stdout(line@),
            SnapshotOutput::Progress(line) => SnapshotOutput::Progress(line@),
        }
    }
}

/// The views of a list of outputs.
pub open spec fn outputs(list: Seq<SnapshotOutput<String>>) -> Seq<SnapshotOutput<Seq<char>>> {
    list.map_values(|o: SnapshotOutput<String>| o@)
}

/// A progress line as shown: marked during the ramp.
pub open spec fn progress_text(line: Seq<char>, in_ramp: bool) -> Seq<char> {
    if in_ramp {
        joined(seq!["[RAMP] "@, line])
    } else {
        line
    }
}

/// A progress line as shown: marked during the ramp.
pub fn shown_text(line: String, in_ramp: bool) -> (r: String)
    ensures
        r@ == progress_text(line@, in_ramp),
{
    if in_ramp {
        let parts: Vec<&str> = vec!["[RAMP] ", line.as_str()];
        assert(slices(parts@) =~= seq!["[RAMP] "@, line@]);
        joined_text(parts)
    } else {
        line
    }
}

// ---------------------------------------------------------------------------
// Snapshots of two groups of workers
// ---------------------------------------------------------------------------

/// Where the snapshots of a run with two groups of workers go.
#[derive(Clone, Copy, Debug, PartialEq, Eq, Structural)]
pub struct DualSnapshotConfig {
    /// Whether rows go to an output file.
    pub to_file: bool,
    /// Whether progress is shown.
    pub show_progress: bool,
    /// Whether progress is shown during the ramp too.
    pub show_ramp_progress: bool,
}

impl DualSnapshotConfig {
    /// Whether snapshots are taken at all.
    pub open spec fn active(self) -> bool {
        self.show_progress || self.to_file
    }

    /// Whether a snapshot shows progress.
    pub open spec fn shows(self, in_ramp: bool) -> bool {
        self.show_progress && (in_ramp ==> self.show_ramp_progress)
    }

    /// Whether snapshots are taken at all.
    pub fn is_active(&self) -> (r: bool)
        ensures
            r == self.active(),
    {
        self.show_progress || self.to_file
    }

    /// Whether a snapshot shows progress; only then is the formatter asked for a line.
    pub fn shows_progress(&self, in_ramp: bool) -> (r: bool)
        ensures
            r == self.shows(in_ramp),
    {
        self.show_progress && (!in_ramp || self.show_ramp_progress)
    }

    /// What is written before the first snapshot.
    pub fn opening(&self, header: String) -> (r: Vec<SnapshotOutput<String>>)
        ensures
            outputs(r@) == (if self.to_file {
                seq![SnapshotOutput::File(header@)]
            } else {
                seq![]
            }),
    {
        let mut list: Vec<SnapshotOutput<String>> = Vec::new();
        if self.to_file {
            list.push(SnapshotOutput::File(header));
        }
        assert(outputs(list@) =~= (if self.to_file {
            seq![SnapshotOutput::File(header@)]
        } else {
            seq![]
        }));
        list
    }

    /// What a snapshot writes: its row to the file, then the progress line where one is
    /// shown, marked during the ramp.
    pub open spec fn written(self, row: Seq<char>, line: Option<Seq<char>>, in_ramp: bool) -> Seq<
        SnapshotOutput<Seq<char>>,
    > {
        (if self.to_file {
            seq![SnapshotOutput::File(row)]
        } else {
            seq![]
        }) + (if self.shows(in_ramp) && line is Some {
            seq![SnapshotOutput::Progress(progress_text(line->0, in_ramp))]
        } else {
            seq![]
        })
    }

    /// What a snapshot writes, given its row and what the formatter made of it.
    pub fn snapshot(&self, row: String, line: Option<String>, in_ramp: bool) -> (r: Vec<
        SnapshotOutput<String>,
    >)
        ensures
            outputs(r@) == self.written(
                row@,
                match line {
                    Some(text) => Some(text@),
                    None => None,
                },
                in_ramp,
            ),
    {
        let mut list: Vec<SnapshotOutput<String>> = Vec::new();
        if self.to_file {
            list.push(SnapshotOutput::File(row));
        }
        if self.shows_progress(in_ramp) {
            match line {
                Some(text) => {
                    list.push(SnapshotOutput::Progress(shown_text(text, in_ramp)));
                },
                None => {},
            }
        }
        assert(outputs(list@) =~= self.written(
            row@,
            match line {
                Some(text) => Some(text@),
                None => None,
            },
            in_ramp,
        ));
        list
    }
}

// ---------------------------------------------------------------------------
// What the decisions of all patterns give
// ---------------------------------------------------------------------------

/// What happens while the rate rises is of the ramp, and everything else is measured; each stage
/// has its own.
pub proof fn law_stages<S>(in_ramp: bool, r: Stage, both: Staged<S>, one: &S)
    ensures
        call_ensures(stage, (in_ramp,), r) ==> (r is Ramp <==> in_ramp),
        call_ensures(Staged::<S>::of, (&both, Stage::Ramp), one) ==> *one == both.ramp,
        call_ensures(Staged::<S>::of, (&both, Stage::Measured), one) ==> *one == both.measured,
{
}

/// A burst factor is held between one thousandth and one thousand, and stays as it is between
/// them. (The bit patterns are those of the two bounds.)
pub proof fn law_burst_factor(factor: Float, r: Float)
    requires
        call_ensures(clamp_burst, (factor,), r),
    ensures
        0x3f50_624d_d2f1_a9fc <= factor.bits <= 0x408f_4000_0000_0000 ==> r == factor,
        factor.bits < 0x3f50_624d_d2f1_a9fc || 0x8000_0000_0000_0000 <= factor.bits
            <= 0xfff0_0000_0000_0000 ==> r.bits == 0x3f50_624d_d2f1_a9fc,
        0x408f_4000_0000_0000 < factor.bits <= 0x7ff0_0000_0000_0000 ==> r.bits
            == 0x408f_4000_0000_0000,
        0x7ff0_0000_0000_0000 < factor.bits < 0x8000_0000_0000_0000 || factor.bits
            > 0xfff0_0000_0000_0000 ==> r == factor,
{
    law_burst_range(factor);
}

/// The same of the value that contracts speak of.
pub proof fn law_burst_range(factor: Float)
    ensures
        0x3f50_624d_d2f1_a9fc <= factor.bits <= 0x408f_4000_0000_0000 ==> spec_clamp_burst(factor)
            == factor,
        factor.bits < 0x3f50_624d_d2f1_a9fc || 0x8000_0000_0000_0000 <= factor.bits
            <= 0xfff0_0000_0000_0000 ==> spec_clamp_burst(factor).bits == 0x3f50_624d_d2f1_a9fc,
        0x408f_4000_0000_0000 < factor.bits <= 0x7ff0_0000_0000_0000 ==> spec_clamp_burst(
            factor,
        ).bits == 0x408f_4000_0000_0000,
        0x7ff0_0000_0000_0000 < factor.bits < 0x8000_0000_0000_0000 || factor.bits
            > 0xfff0_0000_0000_0000 ==> spec_clamp_burst(factor) == factor,
{
    let low = Float { bits: 0x3f50_624d_d2f1_a9fc };
    let high = Float { bits: 0x408f_4000_0000_0000 };
    law_below(low, factor);
    law_below(high, factor);
    law_positive(factor);
    lemma_positive_order(low, high);
    if 0 < factor.bits <= 0x7ff0_0000_0000_0000 {
        law_below(factor, low);
    } else {
        law_below(Float { bits: 0 }, low);
        assert(crate::float::magnitude(0) == 0);
    }
}

/// A progress line is shown as it is, and marked in front during the ramp.
pub proof fn law_shown_text(line: String, in_ramp: bool, r: String)
    requires
        call_ensures(shown_text, (line, in_ramp), r),
    ensures
        in_ramp ==> r@ == "[RAMP] "@ + line@,
        !in_ramp ==> r@ == line@,
{
    reveal_with_fuel(joined, 3);
    assert(joined(seq!["[RAMP] "@, line@]) =~= "[RAMP] "@ + line@);
}

/// Whether and where the snapshots of two groups of workers go: there are none where they go
/// nowhere; progress shows in the ramp only where that is asked for; the file gets the header
/// first.
pub proof fn law_dual_snapshots_go_where_asked(
    config: DualSnapshotConfig,
    in_ramp: bool,
    header: String,
    active: bool,
    shows: bool,
    opening: Vec<SnapshotOutput<String>>,
)
    requires
        call_ensures(DualSnapshotConfig::is_active, (&config,), active),
        call_ensures(DualSnapshotConfig::shows_progress, (&config, in_ramp), shows),
        call_ensures(DualSnapshotConfig::opening, (&config, header), opening),
    ensures
        active == (config.show_progress || config.to_file),
        shows == (config.show_progress && (!in_ramp || config.show_ramp_progress)),
        config.to_file ==> opening@.len() == 1 && (opening@[0] matches SnapshotOutput::File(text)
            && text@ == header@),
        !config.to_file ==> opening@.len() == 0,
{
    lemma_outputs(opening@);
}

/// A snapshot of two groups of workers writes its row to the file, where there is one, and then
/// the progress line, where it is shown and there is one; in the ramp the line is marked.
pub proof fn law_dual_snapshot_writes(
    config: DualSnapshotConfig,
    row: String,
    line: Option<String>,
    in_ramp: bool,
    r: Vec<SnapshotOutput<String>>,
)
    requires
        call_ensures(DualSnapshotConfig::snapshot, (&config, row, line, in_ramp), r),
    ensures
        ({
            let rows = if config.to_file {
                1int
            } else {
                0int
            };
            let shown = config.show_progress && (!in_ramp || config.show_ramp_progress)
                && line is Some;
            &&& r@.len() == rows + (if shown {
                1int
            } else {
                0int
            })
            &&& config.to_file ==> (r@[0] matches SnapshotOutput::File(text) && text@ == row@)
            &&& shown ==> (r@[rows] matches SnapshotOutput::Progress(text) && text@ == (if in_ramp {
                "[RAMP] "@ + line->0@
            } else {
                line->0@
            }))
        }),
{
    lemma_outputs(r@);
    reveal_with_fuel(joined, 3);
    if let Some(text) = line {
        assert(joined(seq!["[RAMP] "@, text@]) =~= "[RAMP] "@ + text@);
    }
}

/// The views of outputs are those of the single ones.
pub proof fn lemma_outputs(list: Seq<SnapshotOutput<String>>)
    ensures
        outputs(list).len() == list.len(),
        forall|k: int|
            #![trigger list[k]]
            #![trigger outputs(list)[k]]
            0 <= k < list.len() ==> outputs(list)[k] == list[k]@,
{
}

} // verus!
