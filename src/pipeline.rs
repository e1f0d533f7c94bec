//! The stages of one download: probe, fetch, verify.
//!
//! As with the scheduler, the caller performs each action and reports its
//! outcome; the pipeline decides what comes next.
use crate::checksum::{integrity, lower_hex, md5_of};
use crate::error::DlError;
use crate::metadata::{
    lemma_quoted_etag_valid, length_of, probe_outcome, ranges_advertised, status_usable,
    strip_quotes, HeadResponse,
};
use crate::plan::plan;
use crate::scatter::{appears, lemma_scatter_rebuilds_body, write_pieces};
use crate::text::opt_view;
use vstd::prelude::*;

verus! {

#[derive(Debug, Clone, Copy, PartialEq, Eq, Structural)]
pub enum Stage {
    Init,
    Probing,
    Downloading,
    Verifying,
    Done,
    Failed,
}

/// The outcome of the last action.
#[derive(Debug)]
pub enum PipelineEvent {
    Start,
    /// The HEAD probe ended: the metadata was read, or the reason it was not.
    Probed(Result<(), DlError>),
    /// Every piece was written, or the first failure.
    Fetched(Result<(), DlError>),
    /// The integrity check ended: valid or not, or why it could not be done.
    Verified(Result<bool, DlError>),
}

/// What the caller is to do next.
#[derive(Debug, PartialEq, Eq)]
pub enum PipelineAction {
    /// Send the HEAD request.
    Probe,
    /// Create (truncating) the target file, then fetch all segments.
    CreateAndFetch,
    /// Check the complete file against its ETag.
    Verify,
    /// The file is written; the integrity outcome is only reported.
    Succeed(Result<bool, DlError>),
    /// The pipeline stops with this error.
    Fail(DlError),
}

/// The next stage and action. The first error of the probe or the fetch ends
/// the pipeline; the integrity outcome, whatever it is, ends it in success.
/// An event that does not belong to the current stage fails with
/// `StreamProcessing`.
pub open spec fn pipeline_step(stage: Stage, event: PipelineEvent) -> (Stage, PipelineAction) {
    match (stage, event) {
        (Stage::Init, PipelineEvent::Start) => (Stage::Probing, PipelineAction::Probe),
        (Stage::Probing, PipelineEvent::Probed(Ok(()))) => (
            Stage::Downloading,
            PipelineAction::CreateAndFetch,
        ),
        (Stage::Probing, PipelineEvent::Probed(Err(e))) => (Stage::Failed, PipelineAction::Fail(e)),
        (Stage::Downloading, PipelineEvent::Fetched(Ok(()))) => (
            Stage::Verifying,
            PipelineAction::Verify,
        ),
        (Stage::Downloading, PipelineEvent::Fetched(Err(e))) => (
            Stage::Failed,
            PipelineAction::Fail(e),
        ),
        (Stage::Verifying, PipelineEvent::Verified(outcome)) => (
            Stage::Done,
            PipelineAction::Succeed(outcome),
        ),
        _ => (Stage::Failed, PipelineAction::Fail(DlError::StreamProcessing)),
    }
}

/// One download's progress through its stages.
pub struct Pipeline {
    pub stage: Stage,
}

impl Pipeline {
    pub fn new() -> (r: Pipeline)
        ensures
            r.stage == Stage::Init,
    {
        Pipeline { stage: Stage::Init }
    }

    /// Takes in the outcome of the last action and says what to do next.
    pub fn step(&mut self, event: PipelineEvent) -> (r: PipelineAction)
        ensures
            (final(self).stage, r) == pipeline_step(old(self).stage, event),
    {
        let (stage, action) = match (self.stage, event) {
            (Stage::Init, PipelineEvent::Start) => (Stage::Probing, PipelineAction::Probe),
            (Stage::Probing, PipelineEvent::Probed(Ok(()))) => (
                Stage::Downloading,
                PipelineAction::CreateAndFetch,
            ),
            (Stage::Probing, PipelineEvent::Probed(Err(e))) => (
                Stage::Failed,
                PipelineAction::Fail(e),
            ),
            (Stage::Downloading, PipelineEvent::Fetched(Ok(()))) => (
                Stage::Verifying,
                PipelineAction::Verify,
            ),
            (Stage::Downloading, PipelineEvent::Fetched(Err(e))) => (
                Stage::Failed,
                PipelineAction::Fail(e),
            ),
            (Stage::Verifying, PipelineEvent::Verified(outcome)) => (
                Stage::Done,
                PipelineAction::Succeed(outcome),
            ),
            _ => (Stage::Failed, PipelineAction::Fail(DlError::StreamProcessing)),
        };
        self.stage = stage;
        action
    }
}

/// A server that answers the probe with a usable status but without
/// `Accept-Ranges: bytes` fails the pipeline with `RangeMetadataAbsent`
/// right after probing: the target file is never created and no piece is
/// fetched.
pub proof fn lemma_no_ranges_no_download(head: HeadResponse)
    requires
        status_usable(head.status),
        !ranges_advertised(opt_view(head.accept_ranges)),
    ensures
        probe_outcome(head) == Err::<(u64, Option<Seq<char>>), DlError>(
            DlError::RangeMetadataAbsent,
        ),
        pipeline_step(Stage::Probing, PipelineEvent::Probed(Err(DlError::RangeMetadataAbsent)))
            == (Stage::Failed, PipelineAction::Fail(DlError::RangeMetadataAbsent)),
{
}

/// A server that advertises byte ranges, gives the body's length and quotes
/// the lower case hex MD5 digest of the body as ETag: the probe yields that
/// size and digest, the pipeline goes on to fetch, the pieces written in any
/// order rebuild the body exactly, the integrity check finds it valid, and
/// the pipeline succeeds.
pub proof fn lemma_download_round_trip(
    head: HeadResponse,
    body: Seq<u8>,
    parallelism: u64,
    order: Seq<int>,
)
    requires
        parallelism >= 1,
        body.len() <= u64::MAX,
        status_usable(head.status),
        ranges_advertised(opt_view(head.accept_ranges)),
        length_of(opt_view(head.content_length)) == Some(body.len() as u64),
        head.etag is Some,
        head.etag.unwrap()@ == seq!['"'] + lower_hex(md5_of(body)) + seq!['"'],
        forall|j: int|
            0 <= j < order.len() ==> 0 <= #[trigger] order[j] < plan(
                body.len(),
                parallelism as nat,
            ).len(),
        forall|k: int| 0 <= k < plan(body.len(), parallelism as nat).len() ==> #[trigger] appears(order, k),
    ensures
        probe_outcome(head) == Ok::<(u64, Option<Seq<char>>), DlError>(
            (body.len() as u64, Some(strip_quotes(head.etag.unwrap()@))),
        ),
        pipeline_step(Stage::Probing, PipelineEvent::Probed(Ok(()))) == (
            Stage::Downloading,
            PipelineAction::CreateAndFetch,
        ),
        write_pieces(Seq::empty(), body, plan(body.len(), parallelism as nat), order) == body,
        integrity(
            Some(strip_quotes(head.etag.unwrap()@)),
            write_pieces(Seq::empty(), body, plan(body.len(), parallelism as nat), order),
        ) == Ok::<bool, DlError>(true),
        pipeline_step(Stage::Verifying, PipelineEvent::Verified(Ok(true))) == (
            Stage::Done,
            PipelineAction::Succeed(Ok(true)),
        ),
{
    lemma_scatter_rebuilds_body(body, body.len() as u64, parallelism, order);
    lemma_quoted_etag_valid(body);
}

} // verus!
