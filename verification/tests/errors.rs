use voice_roi::error::PipelineError;

#[test]
fn only_a_missing_model_is_fatal() {
    assert!(PipelineError::ModelLoadError.is_fatal());
    assert!(!PipelineError::ConfigLoadWarning.is_fatal());
    assert!(!PipelineError::RegionNotFound.is_fatal());
    assert!(!PipelineError::InjectionFailure.is_fatal());
}

#[test]
fn every_failure_has_its_log_line() {
    assert_eq!(PipelineError::ModelLoadError.message(), "speech model could not be loaded");
    assert_eq!(
        PipelineError::ConfigLoadWarning.message(),
        "region configuration could not be loaded"
    );
    assert_eq!(PipelineError::RegionNotFound.message(), "no region with that name");
    assert_eq!(PipelineError::InjectionFailure.message(), "mouse action failed");
}
