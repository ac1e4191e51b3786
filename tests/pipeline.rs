use espv2_deploy::arguments::DeploymentRequest;
use espv2_deploy::extract::{ExtractionError, Marker};
use espv2_deploy::pipeline::{Action, Outcome, Pipeline, PipelineError, Stage, StageName};

fn request() -> DeploymentRequest {
    DeploymentRequest {
        spec_path: "api.yaml".to_string(),
        build_script_path: "./gcloud_build_image.sh".to_string(),
        project_id: "myproj".to_string(),
        service_name: "gateway".to_string(),
        region: "us-central1".to_string(),
    }
}

fn finished(text: &str) -> Outcome {
    Outcome::Finished { diagnostics: text.as_bytes().to_vec() }
}

const UPLOAD_OUTPUT: &str =
    "...Service Configuration [cfg-123] uploaded for service [svc-abc.run.app]...";

const BUILD_OUTPUT: &str = "...pushing gcr.io/myproj/build/cfg-123 latest...";

#[test]
fn full_deployment() {
    let mut p = Pipeline::new(request());
    assert_eq!(
        p.next_action(),
        Some(Action::UploadConfig { spec_path: "api.yaml".to_string(), project_id: "myproj".to_string() })
    );
    p.advance(&finished(UPLOAD_OUTPUT));
    assert_eq!(
        p.stage,
        Stage::ConfigUploaded {
            config_label: b"cfg-123".to_vec(),
            service_label: b"svc-abc.run.app]".to_vec()
        }
    );
    assert_eq!(
        p.next_action(),
        Some(Action::BuildImage {
            script: "./gcloud_build_image.sh".to_string(),
            service_label: b"svc-abc.run.app]".to_vec(),
            config_label: b"cfg-123".to_vec(),
            project_id: "myproj".to_string(),
        })
    );
    p.advance(&finished(BUILD_OUTPUT));
    assert_eq!(p.stage, Stage::ImageBuilt { image: b"gcr.io/myproj/build/cfg-123".to_vec() });
    assert_eq!(
        p.next_action(),
        Some(Action::DeployImage {
            service_name: "gateway".to_string(),
            image: b"gcr.io/myproj/build/cfg-123".to_vec(),
            region: "us-central1".to_string(),
            project_id: "myproj".to_string(),
        })
    );
    p.advance(&finished("Service [gateway] revision deployed"));
    assert_eq!(p.stage, Stage::Deployed { report: b"Service [gateway] revision deployed".to_vec() });
    assert_eq!(p.next_action(), None);
}

#[test]
fn upload_output_without_service_marker_aborts() {
    let mut p = Pipeline::new(request());
    p.advance(&finished("Service Configuration [cfg-123] done"));
    assert_eq!(
        p.stage,
        Stage::Failed(PipelineError::Extraction(
            StageName::UploadConfig,
            ExtractionError::MarkerNotFound(Marker::UploadedForService)
        ))
    );
    assert_eq!(p.next_action(), None);
}

#[test]
fn upload_output_without_run_app_aborts() {
    let mut p = Pipeline::new(request());
    p.advance(&finished("Service Configuration [cfg] uploaded for service [svc.example]"));
    assert_eq!(
        p.stage,
        Stage::Failed(PipelineError::Extraction(
            StageName::UploadConfig,
            ExtractionError::MarkerNotFound(Marker::RunApp)
        ))
    );
    assert_eq!(p.next_action(), None);
}

#[test]
fn missing_build_script_aborts_before_deploy() {
    let mut p = Pipeline::new(request());
    p.advance(&finished(UPLOAD_OUTPUT));
    p.advance(&Outcome::LaunchFailed);
    assert_eq!(p.stage, Stage::Failed(PipelineError::ProcessLaunch(StageName::BuildImage)));
    assert_eq!(p.next_action(), None);
    p.advance(&finished(BUILD_OUTPUT));
    assert_eq!(p.stage, Stage::Failed(PipelineError::ProcessLaunch(StageName::BuildImage)));
    assert_eq!(p.next_action(), None);
}

#[test]
fn build_output_without_image_aborts() {
    let mut p = Pipeline::new(request());
    p.advance(&finished(UPLOAD_OUTPUT));
    p.advance(&finished("pushing gcr.io/otherproj/build/cfg-123"));
    assert_eq!(
        p.stage,
        Stage::Failed(PipelineError::Extraction(StageName::BuildImage, ExtractionError::ReferenceNotFound))
    );
    assert_eq!(p.next_action(), None);
}

#[test]
fn upload_launch_failure() {
    let mut p = Pipeline::new(request());
    p.advance(&Outcome::LaunchFailed);
    assert_eq!(p.stage, Stage::Failed(PipelineError::ProcessLaunch(StageName::UploadConfig)));
    assert_eq!(p.next_action(), None);
}

#[test]
fn deploy_launch_failure() {
    let mut p = Pipeline::new(request());
    p.advance(&finished(UPLOAD_OUTPUT));
    p.advance(&finished(BUILD_OUTPUT));
    p.advance(&Outcome::LaunchFailed);
    assert_eq!(p.stage, Stage::Failed(PipelineError::ProcessLaunch(StageName::DeployImage)));
}

#[test]
fn deployed_stays_deployed() {
    let mut p = Pipeline::new(request());
    p.advance(&finished(UPLOAD_OUTPUT));
    p.advance(&finished(BUILD_OUTPUT));
    p.advance(&finished("ok"));
    p.advance(&finished("again"));
    assert_eq!(p.stage, Stage::Deployed { report: b"ok".to_vec() });
}

#[test]
fn pipeline_error_exit_codes() {
    assert_eq!(PipelineError::ProcessLaunch(StageName::BuildImage).exit_code(), 4);
    assert_eq!(
        PipelineError::Extraction(StageName::UploadConfig, ExtractionError::EmptyLabel).exit_code(),
        3
    );
}
