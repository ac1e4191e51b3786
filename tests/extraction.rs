use espv2_deploy::extract::{
    extract_build_image, extract_config_label, extract_service_label, find_from,
    ExtractionError, Marker,
};

const UPLOAD_OUTPUT: &str = "Waiting for async operation to complete...\n\
Service Configuration [cfg-123] uploaded for service [svc-abc.run.app]\n\
To manage your API, go to the console.";

#[test]
fn scenario_config_label() {
    let r = extract_config_label(UPLOAD_OUTPUT.as_bytes());
    assert_eq!(r, Ok("cfg-123".as_bytes()));
}

#[test]
fn scenario_service_label_keeps_suffix() {
    let r = extract_service_label(UPLOAD_OUTPUT.as_bytes());
    assert_eq!(r, Ok("svc-abc.run.app]".as_bytes()));
    assert!(r.unwrap().ends_with(b".run.app]"));
}

#[test]
fn scenario_build_image() {
    let text = "Step 3/3 ...\nPushing gcr.io/myproj/build/cfg-123\nDONE";
    let r = extract_build_image(text.as_bytes(), b"cfg-123", b"myproj");
    assert_eq!(r, Ok("gcr.io/myproj/build/cfg-123".as_bytes()));
}

#[test]
fn extraction_is_repeatable() {
    let a = extract_config_label(UPLOAD_OUTPUT.as_bytes());
    let b = extract_config_label(UPLOAD_OUTPUT.as_bytes());
    assert_eq!(a, b);
    let c = extract_service_label(UPLOAD_OUTPUT.as_bytes());
    let d = extract_service_label(UPLOAD_OUTPUT.as_bytes());
    assert_eq!(c, d);
}

#[test]
fn config_label_without_opening_marker() {
    let r = extract_config_label(b"cfg-123] uploaded for service [svc.run.app]");
    assert_eq!(r, Err(ExtractionError::MarkerNotFound(Marker::ServiceConfiguration)));
}

#[test]
fn config_label_without_closing_marker() {
    let r = extract_config_label(b"Service Configuration [cfg-123] was not uploaded");
    assert_eq!(r, Err(ExtractionError::MarkerNotFound(Marker::UploadedForService)));
}

#[test]
fn service_label_without_opening_marker() {
    let r = extract_service_label(b"Service Configuration [cfg-123] svc.run.app]");
    assert_eq!(r, Err(ExtractionError::MarkerNotFound(Marker::UploadedForService)));
}

#[test]
fn service_label_without_suffix() {
    let r = extract_service_label(b"Service Configuration [c] uploaded for service [svc.example]");
    assert_eq!(r, Err(ExtractionError::MarkerNotFound(Marker::RunApp)));
}

#[test]
fn empty_config_label_is_refused() {
    let r = extract_config_label(b"Service Configuration [] uploaded for service [s.run.app]");
    assert_eq!(r, Err(ExtractionError::EmptyLabel));
}

#[test]
fn closing_marker_is_searched_after_opening_marker() {
    let text = "] uploaded for service [ then Service Configuration [c1] uploaded for service [s.run.app]";
    assert_eq!(extract_config_label(text.as_bytes()), Ok("c1".as_bytes()));
    assert_eq!(
        extract_service_label(text.as_bytes()),
        Ok(" then Service Configuration [c1] uploaded for service [s.run.app]".as_bytes())
    );
}

#[test]
fn first_occurrence_wins() {
    let text = "Service Configuration [a] uploaded for service [x.run.app] \
Service Configuration [b] uploaded for service [y.run.app]";
    assert_eq!(extract_config_label(text.as_bytes()), Ok("a".as_bytes()));
    assert_eq!(extract_service_label(text.as_bytes()), Ok("x.run.app]".as_bytes()));
}

#[test]
fn build_image_without_registry_prefix() {
    let r = extract_build_image(b"Pushing docker.io/myproj/build/cfg-123", b"cfg-123", b"myproj");
    assert_eq!(r, Err(ExtractionError::ReferenceNotFound));
}

#[test]
fn build_image_of_other_project() {
    let r = extract_build_image(b"Pushing gcr.io/other/build/cfg-123", b"cfg-123", b"myproj");
    assert_eq!(r, Err(ExtractionError::ReferenceNotFound));
}

#[test]
fn build_image_without_config_label() {
    let r = extract_build_image(b"Pushing gcr.io/myproj/build/cfg-999", b"cfg-123", b"myproj");
    assert_eq!(r, Err(ExtractionError::ReferenceNotFound));
}

#[test]
fn build_image_label_searched_after_prefix() {
    let r = extract_build_image(b"p then gcr.io/p/build/p:tag", b"p", b"p");
    assert_eq!(r, Ok("gcr.io/p/build/p".as_bytes()));
}

#[test]
fn find_from_offsets() {
    assert_eq!(find_from(b"abcabc", b"bc", 0), Some(1));
    assert_eq!(find_from(b"abcabc", b"bc", 2), Some(4));
    assert_eq!(find_from(b"abcabc", b"bd", 0), None);
    assert_eq!(find_from(b"abc", b"", 1), Some(1));
    assert_eq!(find_from(b"abc", b"", 5), None);
    assert_eq!(find_from(b"ab", b"abc", 0), None);
    assert_eq!(find_from(b"", b"", 0), Some(0));
}
