//! The three-stage deployment as a state machine: the caller performs each
//! action, reports how it ended, and the pipeline decides what comes next.
use crate::arguments::DeploymentRequest;
use crate::extract::{
    build_image_of, config_label_of, extract_build_image, extract_config_label,
    extract_service_label, first_match, lemma_between_nonempty, lemma_first_match,
    service_label_of, ExtractionError, Marker, IMAGE_REGISTRY,
};
use vstd::prelude::*;
use vstd::slice::slice_to_vec;
use vstd::string::StringSliceAdditionalSpecFns;
use vstd::utf8::encode_utf8;

verus! {

/// The three external invocations, in order.
#[derive(Clone, Copy, Debug, PartialEq, Eq, Structural)]
pub enum StageName {
    UploadConfig,
    BuildImage,
    DeployImage,
}

/// Why a deployment stopped.
#[derive(Clone, Copy, Debug, PartialEq, Eq, Structural)]
pub enum PipelineError {
    /// The stage's program could not be started.
    ProcessLaunch(StageName),
    /// The stage's diagnostics did not carry the expected identifier.
    Extraction(StageName, ExtractionError),
}

impl PipelineError {
    /// The process exit status for this failure: 3 when a stage's
    /// diagnostics lacked an identifier, 4 when a program could not start.
    pub fn exit_code(&self) -> (r: i32)
        ensures
            r == match self {
                PipelineError::Extraction(_, _) => 3i32,
                PipelineError::ProcessLaunch(_) => 4i32,
            },
    {
        match self {
            PipelineError::Extraction(_, _) => 3,
            PipelineError::ProcessLaunch(_) => 4,
        }
    }
}

/// Where a deployment stands, with the identifiers gathered so far.
#[derive(Clone, Debug, PartialEq, Eq)]
pub enum Stage {
    NotStarted,
    ConfigUploaded { config_label: Vec<u8>, service_label: Vec<u8> },
    ImageBuilt { image: Vec<u8> },
    Deployed { report: Vec<u8> },
    Failed(PipelineError),
}

/// `Stage` with its byte strings as sequences.
pub enum StageView {
    NotStarted,
    ConfigUploaded(Seq<u8>, Seq<u8>),
    ImageBuilt(Seq<u8>),
    Deployed(Seq<u8>),
    Failed(PipelineError),
}

impl View for Stage {
    type V = StageView;

    open spec fn view(&self) -> StageView {
        match self {
            Stage::NotStarted => StageView::NotStarted,
            Stage::ConfigUploaded { config_label, service_label } => StageView::ConfigUploaded(
                config_label@,
                service_label@,
            ),
            Stage::ImageBuilt { image } => StageView::ImageBuilt(image@),
            Stage::Deployed { report } => StageView::Deployed(report@),
            Stage::Failed(e) => StageView::Failed(*e),
        }
    }
}

/// An external invocation for the caller to perform.
#[derive(Clone, Debug, PartialEq, Eq)]
pub enum Action {
    /// Publish the API policy document as a service configuration.
    UploadConfig { spec_path: String, project_id: String },
    /// Run the image build script for the uploaded configuration.
    BuildImage {
        script: String,
        service_label: Vec<u8>,
        config_label: Vec<u8>,
        project_id: String,
    },
    /// Deploy the built image as a managed container service.
    DeployImage { service_name: String, image: Vec<u8>, region: String, project_id: String },
}

/// How an invocation ended.
#[derive(Clone, Debug, PartialEq, Eq)]
pub enum Outcome {
    /// The program ran to its end and wrote these diagnostics.
    Finished { diagnostics: Vec<u8> },
    /// The program could not be started.
    LaunchFailed,
}

pub open spec fn outcome_text(o: Outcome) -> Option<Seq<u8>> {
    match o {
        Outcome::Finished { diagnostics } => Some(diagnostics@),
        Outcome::LaunchFailed => None,
    }
}

/// The stage whose invocation comes next, if the run is not over.
pub open spec fn pending(st: StageView) -> Option<StageName> {
    match st {
        StageView::NotStarted => Some(StageName::UploadConfig),
        StageView::ConfigUploaded(_, _) => Some(StageName::BuildImage),
        StageView::ImageBuilt(_) => Some(StageName::DeployImage),
        _ => None,
    }
}

/// The project id as the bytes that the build diagnostics carry.
pub open spec fn project_bytes(req: DeploymentRequest) -> Seq<u8> {
    encode_utf8(req.project_id@)
}

/// The stage after the pending invocation ended with `out` (its
/// diagnostics, or `None` when it could not be started).
pub open spec fn next_stage(req: DeploymentRequest, st: StageView, out: Option<Seq<u8>>) -> StageView {
    match st {
        StageView::NotStarted => match out {
            None => StageView::Failed(PipelineError::ProcessLaunch(StageName::UploadConfig)),
            Some(t) => match config_label_of(t) {
                Err(e) => StageView::Failed(PipelineError::Extraction(StageName::UploadConfig, e)),
                Ok(c) => match service_label_of(t) {
                    Err(e) => StageView::Failed(
                        PipelineError::Extraction(StageName::UploadConfig, e),
                    ),
                    Ok(s) => StageView::ConfigUploaded(c, s),
                },
            },
        },
        StageView::ConfigUploaded(c, _) => match out {
            None => StageView::Failed(PipelineError::ProcessLaunch(StageName::BuildImage)),
            Some(t) => match build_image_of(t, c, project_bytes(req)) {
                Err(e) => StageView::Failed(PipelineError::Extraction(StageName::BuildImage, e)),
                Ok(i) => StageView::ImageBuilt(i),
            },
        },
        StageView::ImageBuilt(_) => match out {
            None => StageView::Failed(PipelineError::ProcessLaunch(StageName::DeployImage)),
            Some(t) => StageView::Deployed(t),
        },
        _ => st,
    }
}

/// The stage reached from `st` after the invocations ended with `outs`.
pub open spec fn run(req: DeploymentRequest, st: StageView, outs: Seq<Option<Seq<u8>>>) -> StageView
    decreases outs.len(),
{
    if outs.len() == 0 {
        st
    } else {
        run(req, next_stage(req, st, outs[0]), outs.drop_first())
    }
}

/// Every identifier that a stage holds for the next invocation is non-empty.
pub open spec fn labels_present(st: StageView) -> bool {
    match st {
        StageView::ConfigUploaded(c, s) => c.len() > 0 && s.len() > 0,
        StageView::ImageBuilt(i) => i.len() > 0,
        _ => true,
    }
}

/// A deployment in progress.
pub struct Pipeline {
    pub request: DeploymentRequest,
    pub stage: Stage,
}

fn next(req: &DeploymentRequest, stage: &Stage, outcome: &Outcome) -> (r: Stage)
    ensures
        r@ == next_stage(*req, stage@, outcome_text(*outcome)),
{
    match stage {
        Stage::NotStarted => match outcome {
            Outcome::LaunchFailed => Stage::Failed(
                PipelineError::ProcessLaunch(StageName::UploadConfig),
            ),
            Outcome::Finished { diagnostics } => match extract_config_label(diagnostics.as_slice()) {
                Err(e) => Stage::Failed(PipelineError::Extraction(StageName::UploadConfig, e)),
                Ok(c) => match extract_service_label(diagnostics.as_slice()) {
                    Err(e) => Stage::Failed(PipelineError::Extraction(StageName::UploadConfig, e)),
                    Ok(s) => Stage::ConfigUploaded {
                        config_label: slice_to_vec(c),
                        service_label: slice_to_vec(s),
                    },
                },
            },
        },
        Stage::ConfigUploaded { config_label, service_label: _ } => match outcome {
            Outcome::LaunchFailed => Stage::Failed(
                PipelineError::ProcessLaunch(StageName::BuildImage),
            ),
            Outcome::Finished { diagnostics } => match extract_build_image(
                diagnostics.as_slice(),
                config_label.as_slice(),
                req.project_id.as_str().as_bytes(),
            ) {
                Err(e) => Stage::Failed(PipelineError::Extraction(StageName::BuildImage, e)),
                Ok(i) => Stage::ImageBuilt { image: slice_to_vec(i) },
            },
        },
        Stage::ImageBuilt { image: _ } => match outcome {
            Outcome::LaunchFailed => Stage::Failed(
                PipelineError::ProcessLaunch(StageName::DeployImage),
            ),
            Outcome::Finished { diagnostics } => Stage::Deployed { report: diagnostics.clone() },
        },
        Stage::Deployed { report } => Stage::Deployed { report: report.clone() },
        Stage::Failed(e) => Stage::Failed(*e),
    }
}

impl Pipeline {
    /// A deployment of `request` that has not started.
    pub fn new(request: DeploymentRequest) -> (r: Pipeline)
        ensures
            r.request == request,
            r.stage@ == StageView::NotStarted,
    {
        Pipeline { request, stage: Stage::NotStarted }
    }

    /// The invocation to perform next; `None` once deployed or failed.
    pub fn next_action(&self) -> (r: Option<Action>)
        ensures
            r is Some <==> pending(self.stage@) is Some,
            match r {
                Some(Action::UploadConfig { spec_path, project_id }) => pending(self.stage@)
                    == Some(StageName::UploadConfig) && spec_path == self.request.spec_path
                    && project_id == self.request.project_id,
                Some(Action::BuildImage { script, service_label, config_label, project_id }) => {
                    &&& self.stage@ == StageView::ConfigUploaded(config_label@, service_label@)
                    &&& script == self.request.build_script_path
                    &&& project_id == self.request.project_id
                },
                Some(Action::DeployImage { service_name, image, region, project_id }) => {
                    &&& self.stage@ == StageView::ImageBuilt(image@)
                    &&& service_name == self.request.service_name
                    &&& region == self.request.region
                    &&& project_id == self.request.project_id
                },
                None => true,
            },
    {
        match &self.stage {
            Stage::NotStarted => Some(
                Action::UploadConfig {
                    spec_path: self.request.spec_path.clone(),
                    project_id: self.request.project_id.clone(),
                },
            ),
            Stage::ConfigUploaded { config_label, service_label } => Some(
                Action::BuildImage {
                    script: self.request.build_script_path.clone(),
                    service_label: service_label.clone(),
                    config_label: config_label.clone(),
                    project_id: self.request.project_id.clone(),
                },
            ),
            Stage::ImageBuilt { image } => Some(
                Action::DeployImage {
                    service_name: self.request.service_name.clone(),
                    image: image.clone(),
                    region: self.request.region.clone(),
                    project_id: self.request.project_id.clone(),
                },
            ),
            _ => None,
        }
    }

    /// Moves on once the pending invocation ended with `outcome`; a finished
    /// or failed deployment stays as it is.
    pub fn advance(&mut self, outcome: &Outcome)
        ensures
            final(self).request == old(self).request,
            final(self).stage@ == next_stage(old(self).request, old(self).stage@, outcome_text(*outcome)),
    {
        let s = next(&self.request, &self.stage, outcome);
        self.stage = s;
    }
}

/// A failed deployment stays failed whatever follows, and asks for no
/// further invocation.
pub proof fn lemma_failed_is_final(
    req: DeploymentRequest,
    e: PipelineError,
    outs: Seq<Option<Seq<u8>>>,
)
    ensures
        run(req, StageView::Failed(e), outs) == StageView::Failed(e),
        pending(run(req, StageView::Failed(e), outs)) is None,
    decreases outs.len(),
{
    if outs.len() > 0 {
        lemma_failed_is_final(req, e, outs.drop_first());
    }
}

/// Once a stage ends in failure, no later stage is ever invoked.
pub proof fn lemma_no_stage_after_failure(
    req: DeploymentRequest,
    st: StageView,
    out: Option<Seq<u8>>,
    outs: Seq<Option<Seq<u8>>>,
)
    requires
        next_stage(req, st, out) is Failed,
    ensures
        run(req, next_stage(req, st, out), outs) == next_stage(req, st, out),
        pending(run(req, next_stage(req, st, out), outs)) is None,
{
    lemma_failed_is_final(req, next_stage(req, st, out)->Failed_0, outs);
}

/// The image build is invoked only once the upload ran and both of its
/// labels were found; the deploy only once the build ran and its image
/// reference was found; the upload is never invoked a second time.
pub proof fn lemma_stage_order(req: DeploymentRequest, st: StageView, out: Option<Seq<u8>>)
    ensures
        pending(next_stage(req, st, out)) == Some(StageName::BuildImage) ==> {
            &&& st == StageView::NotStarted
            &&& out matches Some(t)
            &&& config_label_of(t) is Ok
            &&& service_label_of(t) is Ok
        },
        pending(next_stage(req, st, out)) == Some(StageName::DeployImage) ==> {
            &&& st matches StageView::ConfigUploaded(c, _)
            &&& out matches Some(t)
            &&& build_image_of(t, c, project_bytes(req)) is Ok
        },
        pending(next_stage(req, st, out)) != Some(StageName::UploadConfig),
{
}

/// Labels handed from one stage to the next are never empty.
pub proof fn lemma_labels_present(req: DeploymentRequest, st: StageView, out: Option<Seq<u8>>)
    requires
        labels_present(st),
    ensures
        labels_present(next_stage(req, st, out)),
{
    match st {
        StageView::NotStarted => {
            if let Some(t) = out {
                lemma_between_nonempty(
                    t,
                    Marker::ServiceConfiguration,
                    Marker::UploadedForService,
                    false,
                );
                lemma_between_nonempty(t, Marker::UploadedForService, Marker::RunApp, true);
            }
        },
        StageView::ConfigUploaded(c, _) => {
            if let Some(t) = out {
                let prefix = IMAGE_REGISTRY.spec_bytes() + project_bytes(req);
                lemma_first_match(t, prefix, 0);
                if let Some(s) = first_match(t, prefix, 0) {
                    lemma_first_match(t, c, s + prefix.len());
                }
            }
        },
        _ => {},
    }
}

} // verus!
