//! The ingestion loop's decisions: watermark resolution, the verdict on
//! each line, and the gateway's bounded reconnect-and-retry policy.
//!
//! All storage and stream I/O is performed by the caller; the functions
//! here map what came back to the next decision, so the loop's
//! invariants are provable without touching a connection.

use vstd::prelude::*;
use crate::parser::{spec_parse, parse, ParseError, Sample, TableSpec};
use crate::timestamp::Timestamp;

verus! {

/// Storage-level failures as the loop classifies them.
#[derive(Debug)]
pub enum StorageError {
    /// The target table holds no sample at all, so no watermark can be
    /// established. Treated as fatal at startup: the run refuses to
    /// guess a cutoff and terminates instead of accepting everything.
    NoRows,
    /// A transport- or driver-level failure, with the underlying error
    /// text carried along for diagnostics.
    QueryFailed(String),
}

/// Establish the watermark from the storage answer to the "most recent
/// sample" query — the most recent sample if the driver returned one,
/// no row on an empty table, or the driver's error text. Both failures
/// are fatal to the run: without a watermark nothing can be ingested.
pub fn resolve_watermark(latest: Result<Option<Sample>, String>) -> (r: Result<
    Timestamp,
    StorageError,
>)
    ensures
        latest matches Ok(Some(s)) ==> r == Ok::<Timestamp, StorageError>(s.sampled),
        latest == Ok::<Option<Sample>, String>(None) ==> r == Err::<Timestamp, StorageError>(
            StorageError::NoRows,
        ),
        latest matches Err(m) ==> r == Err::<Timestamp, StorageError>(
            StorageError::QueryFailed(m),
        ),
{
    match latest {
        Ok(Some(sample)) => Ok(sample.sampled),
        Ok(None) => Err(StorageError::NoRows),
        Err(m) => Err(StorageError::QueryFailed(m)),
    }
}

/// What the loop does with one input line.
#[derive(Clone, Copy, Debug, PartialEq, Eq, Structural)]
pub enum LineVerdict {
    /// The sample is at or after the watermark: write it.
    Insert(Sample),
    /// The sample is strictly before the watermark: discard it silently.
    Skip,
    /// The line does not parse: abort the run, carrying the reason.
    Abort(ParseError),
}

/// The verdict on one line: parse it under the layout, then accept the
/// sample iff `sampled >= watermark` — inclusive, so the boundary
/// record itself is re-considered on a restart.
pub open spec fn spec_line_verdict(line: Seq<u8>, layout: TableSpec, watermark: Timestamp)
    -> LineVerdict {
    match spec_parse(line, layout) {
        Err(e) => LineVerdict::Abort(e),
        Ok(s) => if watermark.spec_le(s.sampled) {
            LineVerdict::Insert(s)
        } else {
            LineVerdict::Skip
        },
    }
}

/// Decide one line of input against the active layout and watermark.
pub fn line_verdict(line: &[u8], layout: &TableSpec, watermark: &Timestamp) -> (r: LineVerdict)
    ensures
        r == spec_line_verdict(line@, *layout, *watermark),
{
    match parse(line, layout) {
        Err(e) => LineVerdict::Abort(e),
        Ok(s) => if s.sampled.is_at_or_after(watermark) {
            LineVerdict::Insert(s)
        } else {
            LineVerdict::Skip
        },
    }
}

/// What the gateway does after a failed insert.
#[derive(Clone, Copy, Debug, PartialEq, Eq, Structural)]
pub enum FailureAction {
    /// Discard the session, establish a new one from the original
    /// configuration, and retry the same sample once.
    ReconnectAndRetry,
    /// Report the error, drop this sample, and proceed to the next
    /// line; the run does not terminate.
    DropAndContinue,
}

/// The bounded-retry rule: a first failure earns exactly one reconnect
/// and one retried insert; a failure of the retried insert drops the
/// sample.
pub fn after_insert_failure(already_retried: bool) -> (r: FailureAction)
    ensures
        !already_retried ==> r == FailureAction::ReconnectAndRetry,
        already_retried ==> r == FailureAction::DropAndContinue,
{
    if already_retried {
        FailureAction::DropAndContinue
    } else {
        FailureAction::ReconnectAndRetry
    }
}

/// How writing one accepted sample through the gateway went.
#[derive(Clone, Copy, Debug, PartialEq, Eq, Structural)]
pub struct WriteReport {
    /// Insert statements executed: one, or two after a failure.
    pub attempts: u8,
    /// Reconnects performed: zero or one.
    pub reconnects: u8,
    /// The sample reached storage (on exactly one of the attempts).
    pub persisted: bool,
    /// The sample was given up on; the caller reports the error and the
    /// loop proceeds to the next line.
    pub dropped: bool,
}

/// Reference driver for the bounded-retry policy, phrased over the
/// outcomes of the insert attempts the gateway would make: `first_ok`
/// is the insert on the current session, `retry_ok` the insert on the
/// fresh session, consulted only when the first fails. A success on the
/// first attempt makes no further attempt; a first failure earns
/// exactly one reconnect and one retry; a second failure drops the
/// sample.
pub fn drive_write(first_ok: bool, retry_ok: bool) -> (r: WriteReport)
    ensures
        first_ok ==> r == (WriteReport { attempts: 1, reconnects: 0, persisted: true, dropped: false }),
        !first_ok && retry_ok ==> r == (WriteReport {
            attempts: 2,
            reconnects: 1,
            persisted: true,
            dropped: false,
        }),
        !first_ok && !retry_ok ==> r == (WriteReport {
            attempts: 2,
            reconnects: 1,
            persisted: false,
            dropped: true,
        }),
{
    if first_ok {
        WriteReport { attempts: 1, reconnects: 0, persisted: true, dropped: false }
    } else {
        match after_insert_failure(false) {
            FailureAction::ReconnectAndRetry => {
                if retry_ok {
                    WriteReport { attempts: 2, reconnects: 1, persisted: true, dropped: false }
                } else {
                    match after_insert_failure(true) {
                        FailureAction::DropAndContinue => WriteReport {
                            attempts: 2,
                            reconnects: 1,
                            persisted: false,
                            dropped: true,
                        },
                        FailureAction::ReconnectAndRetry => WriteReport {
                            attempts: 2,
                            reconnects: 1,
                            persisted: false,
                            dropped: true,
                        },
                    }
                }
            },
            FailureAction::DropAndContinue => WriteReport {
                attempts: 2,
                reconnects: 1,
                persisted: false,
                dropped: true,
            },
        }
    }
}

/// The samples a run submits for insertion, in order: the `Insert`
/// verdicts of the lines up to the first `Abort` (a parse error ends
/// the run under the strict default policy).
pub open spec fn spec_submitted(lines: Seq<Seq<u8>>, layout: TableSpec, watermark: Timestamp)
    -> Seq<Sample>
    decreases lines.len(),
{
    if lines.len() == 0 {
        Seq::empty()
    } else {
        match spec_line_verdict(lines[0], layout, watermark) {
            LineVerdict::Abort(_) => Seq::empty(),
            LineVerdict::Skip => spec_submitted(lines.drop_first(), layout, watermark),
            LineVerdict::Insert(s) => seq![s] + spec_submitted(
                lines.drop_first(),
                layout,
                watermark,
            ),
        }
    }
}

/// Every sample a run submits for insertion is at or after the
/// watermark: a rejected sample is discarded silently and never reaches
/// storage.
pub proof fn lemma_submitted_at_or_after(
    lines: Seq<Seq<u8>>,
    layout: TableSpec,
    watermark: Timestamp,
    i: int,
)
    requires
        0 <= i < spec_submitted(lines, layout, watermark).len(),
    ensures
        watermark.spec_le(spec_submitted(lines, layout, watermark)[i].sampled),
    decreases lines.len(),
{
    if lines.len() > 0 {
        match spec_line_verdict(lines[0], layout, watermark) {
            LineVerdict::Abort(_) => {},
            LineVerdict::Skip => {
                lemma_submitted_at_or_after(lines.drop_first(), layout, watermark, i);
            },
            LineVerdict::Insert(s) => {
                if i > 0 {
                    lemma_submitted_at_or_after(lines.drop_first(), layout, watermark, i - 1);
                }
            },
        }
    }
}

/// The error that ends a run early, if one does: the reason of the
/// first `Abort` verdict among the lines.
pub open spec fn spec_run_abort(lines: Seq<Seq<u8>>, layout: TableSpec, watermark: Timestamp)
    -> Option<ParseError>
    decreases lines.len(),
{
    if lines.len() == 0 {
        None
    } else {
        match spec_line_verdict(lines[0], layout, watermark) {
            LineVerdict::Abort(e) => Some(e),
            _ => spec_run_abort(lines.drop_first(), layout, watermark),
        }
    }
}

/// Decide a whole batch of lines in order: the samples the run submits
/// for insertion, and the parse error that ended it early, if one did.
/// Lines after the first failing one are not considered, mirroring the
/// strict abort-on-parse-error policy.
pub fn plan_run(lines: &Vec<Vec<u8>>, layout: &TableSpec, watermark: &Timestamp) -> (r: (
    Vec<Sample>,
    Option<ParseError>,
))
    ensures
        r.0@ == spec_submitted(lines@.map_values(|l: Vec<u8>| l@), *layout, *watermark),
        r.1 == spec_run_abort(lines@.map_values(|l: Vec<u8>| l@), *layout, *watermark),
{
    let ghost all = lines@.map_values(|l: Vec<u8>| l@);
    let mut submitted: Vec<Sample> = Vec::new();
    let mut i: usize = 0;
    proof {
        assert(all.skip(0) =~= all);
    }
    while i < lines.len()
        invariant
            i <= lines@.len(),
            all == lines@.map_values(|l: Vec<u8>| l@),
            spec_submitted(all, *layout, *watermark) == submitted@ + spec_submitted(
                all.skip(i as int),
                *layout,
                *watermark,
            ),
            spec_run_abort(all, *layout, *watermark) == spec_run_abort(
                all.skip(i as int),
                *layout,
                *watermark,
            ),
        decreases lines@.len() - i,
    {
        proof {
            assert(all.skip(i as int)[0] == all[i as int]);
            assert(all.skip(i as int).drop_first() =~= all.skip(i + 1));
        }
        match line_verdict(lines[i].as_slice(), layout, watermark) {
            LineVerdict::Insert(s) => {
                let ghost before = submitted@;
                submitted.push(s);
                proof {
                    assert(before + (seq![s] + spec_submitted(
                        all.skip(i + 1),
                        *layout,
                        *watermark,
                    )) =~= submitted@ + spec_submitted(all.skip(i + 1), *layout, *watermark));
                }
            },
            LineVerdict::Skip => {},
            LineVerdict::Abort(e) => {
                proof {
                    assert(submitted@ + Seq::<Sample>::empty() =~= submitted@);
                }
                return (submitted, Some(e));
            },
        }
        i += 1;
    }
    proof {
        assert(all.skip(all.len() as int) =~= Seq::<Seq<u8>>::empty());
        assert(submitted@ + Seq::<Sample>::empty() =~= submitted@);
    }
    (submitted, None)
}

/// Idempotent tail re-ingestion: over an input whose every line parses
/// to a sample strictly older than the watermark, the run submits no
/// insert at all. (A sample stamped exactly at the watermark is
/// accepted by the inclusive comparison, so such lines are excluded
/// here.)
pub proof fn lemma_idempotent_tail(lines: Seq<Seq<u8>>, layout: TableSpec, watermark: Timestamp)
    requires
        forall|i: int| 0 <= i < lines.len() ==> #[trigger] spec_parse(lines[i], layout) is Ok,
        forall|i: int| 0 <= i < lines.len() ==> (#[trigger] spec_parse(
            lines[i],
            layout,
        )).unwrap().sampled.spec_lt(watermark),
    ensures
        spec_submitted(lines, layout, watermark) == Seq::<Sample>::empty(),
    decreases lines.len(),
{
    if lines.len() > 0 {
        assert(spec_parse(lines[0], layout) is Ok);
        assert(forall|i: int| 0 <= i < lines.drop_first().len() ==> lines.drop_first()[i]
            == lines[i + 1]);
        lemma_idempotent_tail(lines.drop_first(), layout, watermark);
    }
}

/// The samples a run persists, given which of each submitted sample's
/// insert attempts succeed: `outcomes[i]` is `(first_ok, retry_ok)` for
/// the `i`-th submission, and the sample reaches storage iff one of the
/// two attempts does.
pub open spec fn spec_persisted(submitted: Seq<Sample>, outcomes: Seq<(bool, bool)>)
    -> Seq<Sample>
    decreases submitted.len(),
{
    if submitted.len() == 0 {
        Seq::empty()
    } else {
        let rest = spec_persisted(submitted.drop_first(), outcomes.drop_first());
        if outcomes.len() > 0 && (outcomes[0].0 || outcomes[0].1) {
            seq![submitted[0]] + rest
        } else {
            rest
        }
    }
}

/// One submission's contribution to what a run persists: its sample
/// appears exactly once when either attempt succeeds, not at all when
/// both fail — and the rest of the run is the same either way.
proof fn lemma_persisted_split(submitted: Seq<Sample>, outcomes: Seq<(bool, bool)>, i: int)
    requires
        outcomes.len() == submitted.len(),
        0 <= i < submitted.len(),
    ensures
        spec_persisted(submitted, outcomes) == spec_persisted(
            submitted.take(i),
            outcomes.take(i),
        ) + (if outcomes[i].0 || outcomes[i].1 {
            seq![submitted[i]]
        } else {
            Seq::<Sample>::empty()
        }) + spec_persisted(submitted.skip(i + 1), outcomes.skip(i + 1)),
    decreases i,
{
    if i == 0 {
        assert(submitted.take(0) =~= Seq::<Sample>::empty());
        assert(outcomes.take(0) =~= Seq::<(bool, bool)>::empty());
        assert(submitted.skip(1) =~= submitted.drop_first());
        assert(outcomes.skip(1) =~= outcomes.drop_first());
        assert(spec_persisted(submitted, outcomes) =~= spec_persisted(
            submitted.take(0),
            outcomes.take(0),
        ) + (if outcomes[0].0 || outcomes[0].1 {
            seq![submitted[0]]
        } else {
            Seq::<Sample>::empty()
        }) + spec_persisted(submitted.skip(1), outcomes.skip(1)));
    } else {
        lemma_persisted_split(submitted.drop_first(), outcomes.drop_first(), i - 1);
        assert(submitted.drop_first().take(i - 1) =~= submitted.take(i).drop_first());
        assert(outcomes.drop_first().take(i - 1) =~= outcomes.take(i).drop_first());
        assert(submitted.drop_first().skip(i) =~= submitted.skip(i + 1));
        assert(outcomes.drop_first().skip(i) =~= outcomes.skip(i + 1));
        assert(submitted.drop_first()[i - 1] == submitted[i]);
        assert(outcomes.drop_first()[i - 1] == outcomes[i]);
        assert(spec_persisted(submitted, outcomes) =~= spec_persisted(
            submitted.take(i),
            outcomes.take(i),
        ) + (if outcomes[i].0 || outcomes[i].1 {
            seq![submitted[i]]
        } else {
            Seq::<Sample>::empty()
        }) + spec_persisted(submitted.skip(i + 1), outcomes.skip(i + 1)));
    }
}

/// Bounded retry, at run level: a submitted sample whose first insert
/// fails and whose single retried insert succeeds is persisted exactly
/// once — it appears once, at its own position, and every other
/// submission's fate is untouched.
pub proof fn lemma_bounded_retry(submitted: Seq<Sample>, outcomes: Seq<(bool, bool)>, i: int)
    requires
        outcomes.len() == submitted.len(),
        0 <= i < submitted.len(),
        !outcomes[i].0,
        outcomes[i].1,
    ensures
        spec_persisted(submitted, outcomes) == spec_persisted(
            submitted.take(i),
            outcomes.take(i),
        ) + seq![submitted[i]] + spec_persisted(submitted.skip(i + 1), outcomes.skip(i + 1)),
{
    lemma_persisted_split(submitted, outcomes, i);
}

/// Retry exhaustion, at run level: a submitted sample whose insert
/// fails both before and after the reconnect is dropped — it appears
/// nowhere in what the run persists — while every submission after it
/// proceeds exactly as it would have: the loop continues rather than
/// terminating.
pub proof fn lemma_retry_exhaustion(submitted: Seq<Sample>, outcomes: Seq<(bool, bool)>, i: int)
    requires
        outcomes.len() == submitted.len(),
        0 <= i < submitted.len(),
        !outcomes[i].0,
        !outcomes[i].1,
    ensures
        spec_persisted(submitted, outcomes) == spec_persisted(
            submitted.take(i),
            outcomes.take(i),
        ) + spec_persisted(submitted.skip(i + 1), outcomes.skip(i + 1)),
{
    lemma_persisted_split(submitted, outcomes, i);
    assert(spec_persisted(submitted.take(i), outcomes.take(i)) + Seq::<Sample>::empty()
        + spec_persisted(submitted.skip(i + 1), outcomes.skip(i + 1)) =~= spec_persisted(
        submitted.take(i),
        outcomes.take(i),
    ) + spec_persisted(submitted.skip(i + 1), outcomes.skip(i + 1)));
}

} // verus!
