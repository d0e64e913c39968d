//! Point-in-time figures and their comma-separated form.

use crate::float::Float;
use crate::text::{comma_line, comma_separated, commas, decimal, decimal_text, law_columns,
    lemma_decimal_has_no_comma, lemma_no_comma, texts};
use vstd::prelude::*;
use vstd::string::*;

verus! {

/// The figures of a run at one moment. Latencies are in nanoseconds.
#[derive(Clone, Copy, Debug)]
pub struct StatsSnapshot {
    /// When the figures were taken, in UNIX time.
    pub timestamp: u64,
    /// Operations sent.
    pub sent_count: u64,
    /// Responses received.
    pub received_count: u64,
    /// Operations failed.
    pub error_count: u64,
    /// Operations per second since the first activity.
    pub total_throughput: Float,
    /// Operations per second since the snapshot before.
    pub interval_throughput: Float,
    /// Latency percentiles.
    pub latency_ns_p25: u64,
    pub latency_ns_p50: u64,
    pub latency_ns_p75: u64,
    pub latency_ns_p95: u64,
    pub latency_ns_p99: u64,
    /// Least latency.
    pub latency_ns_min: u64,
    /// Greatest latency.
    pub latency_ns_max: u64,
    /// Mean latency.
    pub latency_ns_mean: Float,
    /// Standard deviation of the latency.
    pub latency_ns_stddev: Float,
    /// Latencies recorded.
    pub latency_sample_count: u64,
    /// Messages received more than once.
    pub duplicate_count: u64,
    /// Messages missing within the received range.
    pub gap_count: u64,
    /// Messages lost before the first received.
    pub head_loss: u64,
}

/// The fractional figures of a snapshot as text.
pub struct SnapshotText {
    pub total_throughput: String,
    pub interval_throughput: String,
    pub latency_ns_mean: String,
    pub latency_ns_stddev: String,
}

/// The names of the columns.
pub open spec fn header_fields() -> Seq<Seq<char>> {
    seq![
        "timestamp"@,
        "sent_count"@,
        "received_count"@,
        "error_count"@,
        "total_throughput"@,
        "interval_throughput"@,
        "latency_ns_p25"@,
        "latency_ns_p50"@,
        "latency_ns_p75"@,
        "latency_ns_p95"@,
        "latency_ns_p99"@,
        "latency_ns_min"@,
        "latency_ns_max"@,
        "latency_ns_mean"@,
        "latency_ns_stddev"@,
        "latency_sample_count"@,
        "duplicate_count"@,
        "gap_count"@,
        "head_loss"@,
    ]
}

/// The fields of a row.
pub open spec fn row_fields(snap: StatsSnapshot, text: SnapshotText) -> Seq<Seq<char>> {
    seq![
        decimal(snap.timestamp as nat),
        decimal(snap.sent_count as nat),
        decimal(snap.received_count as nat),
        decimal(snap.error_count as nat),
        text.total_throughput@,
        text.interval_throughput@,
        decimal(snap.latency_ns_p25 as nat),
        decimal(snap.latency_ns_p50 as nat),
        decimal(snap.latency_ns_p75 as nat),
        decimal(snap.latency_ns_p95 as nat),
        decimal(snap.latency_ns_p99 as nat),
        decimal(snap.latency_ns_min as nat),
        decimal(snap.latency_ns_max as nat),
        text.latency_ns_mean@,
        text.latency_ns_stddev@,
        decimal(snap.latency_sample_count as nat),
        decimal(snap.duplicate_count as nat),
        decimal(snap.gap_count as nat),
        decimal(snap.head_loss as nat),
    ]
}

impl StatsSnapshot {
    /// Whether the figures count so many operations sent, responses received and failures.
    pub open spec fn counts(self, sent: nat, received: nat, failed: nat) -> bool {
        &&& self.sent_count == sent
        &&& self.received_count == received
        &&& self.error_count == failed
    }

    /// The header line of the table.
    pub fn csv_header() -> (r: String)
        ensures
            r@ == comma_separated(header_fields()),
    {
        let mut fields: Vec<String> = Vec::new();
        fields.push("timestamp".to_owned());
        fields.push("sent_count".to_owned());
        fields.push("received_count".to_owned());
        fields.push("error_count".to_owned());
        fields.push("total_throughput".to_owned());
        fields.push("interval_throughput".to_owned());
        fields.push("latency_ns_p25".to_owned());
        fields.push("latency_ns_p50".to_owned());
        fields.push("latency_ns_p75".to_owned());
        fields.push("latency_ns_p95".to_owned());
        fields.push("latency_ns_p99".to_owned());
        fields.push("latency_ns_min".to_owned());
        fields.push("latency_ns_max".to_owned());
        fields.push("latency_ns_mean".to_owned());
        fields.push("latency_ns_stddev".to_owned());
        fields.push("latency_sample_count".to_owned());
        fields.push("duplicate_count".to_owned());
        fields.push("gap_count".to_owned());
        fields.push("head_loss".to_owned());
        assert(texts(fields@) =~= header_fields());
        comma_line(&fields)
    }

    /// The row of the table for this snapshot.
    pub fn to_csv_row(&self, text: &SnapshotText) -> (r: String)
        ensures
            r@ == comma_separated(row_fields(*self, *text)),
    {
        let mut fields: Vec<String> = Vec::new();
        fields.push(decimal_text(self.timestamp));
        fields.push(decimal_text(self.sent_count));
        fields.push(decimal_text(self.received_count));
        fields.push(decimal_text(self.error_count));
        fields.push(text.total_throughput.clone());
        fields.push(text.interval_throughput.clone());
        fields.push(decimal_text(self.latency_ns_p25));
        fields.push(decimal_text(self.latency_ns_p50));
        fields.push(decimal_text(self.latency_ns_p75));
        fields.push(decimal_text(self.latency_ns_p95));
        fields.push(decimal_text(self.latency_ns_p99));
        fields.push(decimal_text(self.latency_ns_min));
        fields.push(decimal_text(self.latency_ns_max));
        fields.push(text.latency_ns_mean.clone());
        fields.push(text.latency_ns_stddev.clone());
        fields.push(decimal_text(self.latency_sample_count));
        fields.push(decimal_text(self.duplicate_count));
        fields.push(decimal_text(self.gap_count));
        fields.push(decimal_text(self.head_loss));
        assert(texts(fields@) =~= row_fields(*self, *text));
        comma_line(&fields)
    }
}

/// Header and rows have the same nineteen columns, provided the fractional figures
/// are written without commas.
pub proof fn law_rows_match_header(snap: StatsSnapshot, text: SnapshotText)
    requires
        commas(text.total_throughput@) == 0,
        commas(text.interval_throughput@) == 0,
        commas(text.latency_ns_mean@) == 0,
        commas(text.latency_ns_stddev@) == 0,
    ensures
        header_fields().len() == 19,
        row_fields(snap, text).len() == header_fields().len(),
        commas(comma_separated(header_fields())) == 18,
        commas(comma_separated(row_fields(snap, text))) == 18,
{
    let names = header_fields();
    assert forall|i: int| 0 <= i < names.len() implies commas(#[trigger] names[i]) == 0 by {
        reveal_strlit("timestamp");
        reveal_strlit("sent_count");
        reveal_strlit("received_count");
        reveal_strlit("error_count");
        reveal_strlit("total_throughput");
        reveal_strlit("interval_throughput");
        reveal_strlit("latency_ns_p25");
        reveal_strlit("latency_ns_p50");
        reveal_strlit("latency_ns_p75");
        reveal_strlit("latency_ns_p95");
        reveal_strlit("latency_ns_p99");
        reveal_strlit("latency_ns_min");
        reveal_strlit("latency_ns_max");
        reveal_strlit("latency_ns_mean");
        reveal_strlit("latency_ns_stddev");
        reveal_strlit("latency_sample_count");
        reveal_strlit("duplicate_count");
        reveal_strlit("gap_count");
        reveal_strlit("head_loss");
        lemma_no_comma(names[i]);
    }
    law_columns(names);
    let fields = row_fields(snap, text);
    assert forall|i: int| 0 <= i < fields.len() implies commas(#[trigger] fields[i]) == 0 by {
        lemma_decimal_has_no_comma(snap.timestamp as nat);
        lemma_decimal_has_no_comma(snap.sent_count as nat);
        lemma_decimal_has_no_comma(snap.received_count as nat);
        lemma_decimal_has_no_comma(snap.error_count as nat);
        lemma_decimal_has_no_comma(snap.latency_ns_p25 as nat);
        lemma_decimal_has_no_comma(snap.latency_ns_p50 as nat);
        lemma_decimal_has_no_comma(snap.latency_ns_p75 as nat);
        lemma_decimal_has_no_comma(snap.latency_ns_p95 as nat);
        lemma_decimal_has_no_comma(snap.latency_ns_p99 as nat);
        lemma_decimal_has_no_comma(snap.latency_ns_min as nat);
        lemma_decimal_has_no_comma(snap.latency_ns_max as nat);
        lemma_decimal_has_no_comma(snap.latency_sample_count as nat);
        lemma_decimal_has_no_comma(snap.duplicate_count as nat);
        lemma_decimal_has_no_comma(snap.gap_count as nat);
        lemma_decimal_has_no_comma(snap.head_loss as nat);
    }
    law_columns(fields);
}

/// In every column of the table stands the figure that the header names there, in full.
pub proof fn law_columns_carry_their_names(
    snap: StatsSnapshot,
    text: SnapshotText,
    header: String,
    row: String,
)
    requires
        call_ensures(StatsSnapshot::csv_header, (), header),
        call_ensures(StatsSnapshot::to_csv_row, (&snap, &text), row),
    ensures
        ({
            let names = header_fields();
            let figures = row_fields(snap, text);
            &&& header@ == comma_separated(names) && row@ == comma_separated(figures)
            &&& names.len() == 19 && figures.len() == 19
            &&& names[0] == "timestamp"@ && figures[0] == decimal(snap.timestamp as nat)
            &&& names[1] == "sent_count"@ && figures[1] == decimal(snap.sent_count as nat)
            &&& names[2] == "received_count"@ && figures[2] == decimal(snap.received_count as nat)
            &&& names[3] == "error_count"@ && figures[3] == decimal(snap.error_count as nat)
            &&& names[4] == "total_throughput"@ && figures[4] == text.total_throughput@
            &&& names[5] == "interval_throughput"@ && figures[5] == text.interval_throughput@
            &&& names[6] == "latency_ns_p25"@ && figures[6] == decimal(snap.latency_ns_p25 as nat)
            &&& names[7] == "latency_ns_p50"@ && figures[7] == decimal(snap.latency_ns_p50 as nat)
            &&& names[8] == "latency_ns_p75"@ && figures[8] == decimal(snap.latency_ns_p75 as nat)
            &&& names[9] == "latency_ns_p95"@ && figures[9] == decimal(snap.latency_ns_p95 as nat)
            &&& names[10] == "latency_ns_p99"@ && figures[10] == decimal(snap.latency_ns_p99 as nat)
            &&& names[11] == "latency_ns_min"@ && figures[11] == decimal(snap.latency_ns_min as nat)
            &&& names[12] == "latency_ns_max"@ && figures[12] == decimal(snap.latency_ns_max as nat)
            &&& names[13] == "latency_ns_mean"@ && figures[13] == text.latency_ns_mean@
            &&& names[14] == "latency_ns_stddev"@ && figures[14] == text.latency_ns_stddev@
            &&& names[15] == "latency_sample_count"@
            &&& figures[15] == decimal(snap.latency_sample_count as nat)
            &&& names[16] == "duplicate_count"@
            &&& figures[16] == decimal(snap.duplicate_count as nat)
            &&& names[17] == "gap_count"@ && figures[17] == decimal(snap.gap_count as nat)
            &&& names[18] == "head_loss"@ && figures[18] == decimal(snap.head_loss as nat)
        }),
{
}

/// What a snapshot counts.
pub proof fn law_snapshot_counts(snap: StatsSnapshot, sent: nat, received: nat, failed: nat)
    requires
        snap.counts(sent, received, failed),
    ensures
        snap.sent_count == sent,
        snap.received_count == received,
        snap.error_count == failed,
{
}

} // verus!
