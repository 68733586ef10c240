use voiceflow_core::errors::{
    AppError, ErrorReporter, ResourceError, TextProcessingError, ValidationError, VoiceError,
};

#[test]
fn app_error_messages() {
    assert_eq!(AppError::Internal("x".to_string()).message(), "Internal error: x");
    assert_eq!(AppError::Network("down".to_string()).message(), "Network error: down");
    assert_eq!(AppError::Security("s".to_string()).message(), "Security violation: s");
    assert_eq!(AppError::Permission("p".to_string()).message(), "Permission denied: p");
    assert_eq!(AppError::Configuration("c".to_string()).message(), "Configuration error: c");
    assert_eq!(
        AppError::VoiceRecognition(VoiceError::Timeout).message(),
        "Voice recognition error: Speech recognition timeout"
    );
    assert_eq!(
        AppError::TextProcessing(TextProcessingError::TextTooLong(120, 100)).message(),
        "Text processing error: Text too long: 120 characters (max: 100)"
    );
    assert_eq!(
        AppError::Validation(ValidationError::FileTooLarge(11, 10)).message(),
        "Input validation error: File size too large: 11 bytes (max: 10 bytes)"
    );
    assert_eq!(
        AppError::Resource(ResourceError::NotFound("engine".to_string())).message(),
        "Resource management error: Resource not found: engine"
    );
}

#[test]
fn detail_error_messages() {
    assert_eq!(VoiceError::InvalidLanguage("xx".to_string()).message(), "Invalid language code: xx");
    assert_eq!(VoiceError::AudioMemoryError.message(), "Memory allocation failed for audio buffer");
    assert_eq!(TextProcessingError::ProcessingTimeout(250).message(), "Processing timeout after 250ms");
    assert_eq!(TextProcessingError::TextTooShort(0, 1).message(), "Text too short: 0 characters (min: 1)");
    assert_eq!(ValidationError::EmptyInput.message(), "Empty input provided");
    assert_eq!(ValidationError::InputTooLong(4097, 4096).message(), "Input too long: 4097 characters (max: 4096)");
    assert_eq!(ValidationError::InvalidHotkey("h".to_string()).message(), "Invalid hotkey format: h");
    assert_eq!(ResourceError::MemoryAllocationFailed.message(), "Memory allocation failed");
    assert_eq!(ResourceError::ResourceLocked("r".to_string()).message(), "Resource locked: r");
}

#[test]
fn reporter_counts_and_keeps_last_hundred() {
    let mut r = ErrorReporter::new();
    assert_eq!(r.get_error_count(), 0);
    for i in 0..101 {
        r.report_error(&format!("e{}", i));
    }
    assert_eq!(r.get_error_count(), 101);
    let recent = r.get_recent_errors();
    assert_eq!(recent.len(), 100);
    assert_eq!(recent[0], "[1] e1");
    assert_eq!(recent[99], "[100] e100");
    r.clear_errors();
    assert_eq!(r.get_error_count(), 0);
    assert!(r.get_recent_errors().is_empty());
    r.report_error("again");
    assert_eq!(r.get_recent_errors(), vec!["[0] again".to_string()]);
}
