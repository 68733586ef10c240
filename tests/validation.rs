use voiceflow_core::errors::{AppError, ValidationError};
use voiceflow_core::validation::{
    check_filename, check_file_path, check_text, contains_invalid_characters,
    contains_invalid_characters_lowered, sanitize_for_html, validate_config_value,
    validate_audio_metadata, validate_file_path, validate_file_size, validate_filename, validate_hotkey,
    validate_language_code, validate_numeric_value, validate_text, MAX_FILE_SIZE,
};

fn verr(e: ValidationError) -> AppError {
    AppError::Validation(e)
}

#[test]
fn text_accepts_plain_input() {
    assert_eq!(validate_text("Hello world", None, None), Ok("Hello world".to_string()));
    assert_eq!(validate_text("tab\tand\nnewline", None, None), Ok("tab\tand\nnewline".to_string()));
}

#[test]
fn text_rejects_blank() {
    assert_eq!(validate_text("", None, None), Err(verr(ValidationError::EmptyInput)));
    assert_eq!(validate_text(" \t\n\u{3000}", None, None), Err(verr(ValidationError::EmptyInput)));
}

#[test]
fn text_length_bounds_in_bytes() {
    assert_eq!(validate_text("abc", Some(5), None), Err(verr(ValidationError::TextTooShort(3, 5))));
    assert_eq!(validate_text("abcdef", None, Some(4)), Err(verr(ValidationError::TextTooLong(6, 4))));
    assert_eq!(validate_text("é", Some(2), Some(2)), Ok("é".to_string()));
    let long = "a".repeat(50_001);
    assert_eq!(validate_text(&long, None, None), Err(verr(ValidationError::TextTooLong(50_001, 50_000))));
}

#[test]
fn text_rejects_dangerous_content() {
    let expected = Err(verr(ValidationError::InvalidCharacters(
        "Input contains invalid or dangerous characters".to_string(),
    )));
    assert_eq!(validate_text("a\u{7}b", None, None), expected);
    assert_eq!(validate_text("<SCRIPT>alert(1)</SCRIPT>", None, None), expected);
    assert_eq!(validate_text("click JavaScript:go", None, None), expected);
    assert_eq!(validate_text("<img OnError=x>", None, None), expected);
    assert!(contains_invalid_characters("x\u{85}y"));
    assert!(contains_invalid_characters("OnMouseOver"));
    assert!(!contains_invalid_characters("plain words"));
}

#[test]
fn text_check_uses_given_lowercase() {
    assert!(contains_invalid_characters_lowered("ABC", "<script"));
    assert!(!contains_invalid_characters_lowered("<SCRIPT", "abc"));
    assert_eq!(check_text("<SCRIPT", "abc", None, None), Ok("<SCRIPT".to_string()));
}

#[test]
fn file_path_rules() {
    assert_eq!(validate_file_path("notes.txt"), Ok("notes.txt".to_string()));
    let traversal = Err(verr(ValidationError::PathTraversal("Path traversal detected".to_string())));
    assert_eq!(validate_file_path("../etc/passwd"), traversal);
    assert_eq!(validate_file_path("~/secret"), traversal);
    assert_eq!(
        validate_file_path("dir/file.txt"),
        Err(verr(ValidationError::PathTraversal("Path contained invalid characters".to_string())))
    );
    let long = "a".repeat(4097);
    assert_eq!(validate_file_path(&long), Err(verr(ValidationError::InputTooLong(4097, 4096))));
    assert_eq!(check_file_path("x", "x"), Ok("x".to_string()));
    assert_eq!(
        check_file_path("x", "y"),
        Err(verr(ValidationError::PathTraversal("Path contained invalid characters".to_string())))
    );
}

#[test]
fn filename_rules() {
    assert_eq!(validate_filename("report.pdf"), Ok("report.pdf".to_string()));
    assert_eq!(validate_filename(""), Err(verr(ValidationError::EmptyInput)));
    let long = "a".repeat(256);
    assert_eq!(validate_filename(&long), Err(verr(ValidationError::InputTooLong(256, 255))));
    let invalid = Err(verr(ValidationError::InvalidCharacters("Invalid filename".to_string())));
    assert_eq!(validate_filename("what?.txt"), invalid);
    assert_eq!(validate_filename("con"), invalid);
    assert_eq!(validate_filename("trailing."), invalid);
    let forbidden = Err(verr(ValidationError::InvalidFileType("Forbidden file type".to_string())));
    assert_eq!(validate_filename("setup.exe"), forbidden);
    assert_eq!(validate_filename("run.tar.sh"), forbidden);
    assert_eq!(validate_filename("lib.dylib"), forbidden);
    assert_eq!(validate_filename("setup.EXE"), Ok("setup.EXE".to_string()));
    assert_eq!(validate_filename(".sh"), Ok(".sh".to_string()));
    assert_eq!(validate_filename("archive.exe.txt"), Ok("archive.exe.txt".to_string()));
    assert_eq!(check_filename("a.txt", ""), invalid);
    assert_eq!(check_filename("a.bat", "a.bat"), forbidden);
}

#[test]
fn language_code_rules() {
    assert_eq!(validate_language_code("en-US"), Ok("en-US".to_string()));
    assert_eq!(validate_language_code("fr"), Ok("fr".to_string()));
    let bad = Err(verr(ValidationError::InvalidCharacters("Invalid language code format".to_string())));
    assert_eq!(validate_language_code("EN"), bad);
    assert_eq!(validate_language_code("en-us"), bad);
    assert_eq!(validate_language_code("eng"), bad);
    assert_eq!(
        validate_language_code(""),
        Err(verr(ValidationError::InvalidCharacters("Empty language code".to_string())))
    );
    assert_eq!(validate_language_code("pt-BR"), Ok("pt-BR".to_string()));
    assert_eq!(validate_language_code("en-USA"), bad);
    assert_eq!(validate_language_code("en_US"), bad);
    assert_eq!(validate_language_code("en-US\n"), bad);
    assert_eq!(validate_language_code("é1"), bad);
}

#[test]
fn hotkey_rules() {
    assert_eq!(validate_hotkey("Ctrl+Shift+Space"), Ok("Ctrl+Shift+Space".to_string()));
    assert_eq!(validate_hotkey("Alt+F4"), Ok("Alt+F4".to_string()));
    assert_eq!(
        validate_hotkey(""),
        Err(verr(ValidationError::InvalidHotkey("Empty hotkey".to_string())))
    );
    let long = "Ctrl+".repeat(11);
    assert_eq!(
        validate_hotkey(&long),
        Err(verr(ValidationError::InvalidHotkey("Hotkey too long".to_string())))
    );
    assert_eq!(
        validate_hotkey("ctrl+alt"),
        Err(verr(ValidationError::InvalidHotkey("Hotkey must contain a valid key".to_string())))
    );
}

#[test]
fn config_value_rules() {
    assert_eq!(validate_config_value("dark", "theme"), Ok("dark".to_string()));
    assert_eq!(validate_config_value("friendly", "tone"), Ok("friendly".to_string()));
    assert_eq!(validate_config_value("email", "context"), Ok("email".to_string()));
    assert_eq!(validate_config_value("de-DE", "language"), Ok("de-DE".to_string()));
    assert_eq!(validate_config_value("anything", "other"), Ok("anything".to_string()));
    assert_eq!(
        validate_config_value("", "theme"),
        Err(verr(ValidationError::InvalidConfigValue("Empty theme value".to_string())))
    );
    assert_eq!(
        validate_config_value("blue", "theme"),
        Err(verr(ValidationError::InvalidConfigValue(
            "Invalid theme: blue. Valid themes: [\"light\", \"dark\", \"auto\"]".to_string()
        )))
    );
    assert_eq!(
        validate_config_value("rude", "tone"),
        Err(verr(ValidationError::InvalidConfigValue(
            "Invalid tone: rude. Valid tones: [\"professional\", \"friendly\", \"formal\", \"casual\", \"empathetic\", \"confident\", \"persuasive\", \"neutral\"]".to_string()
        )))
    );
    assert_eq!(
        validate_config_value("chat", "context"),
        Err(verr(ValidationError::InvalidConfigValue(
            "Invalid context: chat. Valid contexts: [\"email\", \"code\", \"document\", \"social\", \"formal\", \"casual\", \"technical\", \"creative\"]".to_string()
        )))
    );
    assert_eq!(
        validate_config_value("EN", "language"),
        Err(verr(ValidationError::InvalidCharacters("Invalid language code format".to_string())))
    );
    let long = "x".repeat(1001);
    assert_eq!(validate_config_value(&long, "other"), Err(verr(ValidationError::InputTooLong(1001, 1000))));
}

#[test]
fn numeric_range() {
    assert_eq!(validate_numeric_value(5, 1, 10, "volume"), Ok(5));
    assert_eq!(validate_numeric_value(1, 1, 10, "volume"), Ok(1));
    assert_eq!(
        validate_numeric_value(11, 1, 10, "volume"),
        Err(verr(ValidationError::InvalidConfigValue("volume must be between 1 and 10, got 11".to_string())))
    );
    assert_eq!(
        validate_numeric_value(-7, -5, 5, "pitch"),
        Err(verr(ValidationError::InvalidConfigValue("pitch must be between -5 and 5, got -7".to_string())))
    );
    assert_eq!(
        validate_numeric_value(i64::MIN, 0, 0, "n"),
        Err(verr(ValidationError::InvalidConfigValue(
            "n must be between 0 and 0, got -9223372036854775808".to_string()
        )))
    );
}

#[test]
fn file_size_rules() {
    assert_eq!(validate_file_size(1), Ok(1));
    assert_eq!(validate_file_size(MAX_FILE_SIZE as u64), Ok(10 * 1024 * 1024));
    assert_eq!(validate_file_size(0), Err(verr(ValidationError::EmptyInput)));
    assert_eq!(
        validate_file_size(10 * 1024 * 1024 + 1),
        Err(verr(ValidationError::FileTooLarge(10_485_761, 10_485_760)))
    );
}

#[test]
fn html_escaping() {
    assert_eq!(
        sanitize_for_html("<a href=\"x\">Tom & Jerry's</a>"),
        "&lt;a href=&quot;x&quot;&gt;Tom &amp; Jerry&#x27;s&lt;/a&gt;"
    );
    assert_eq!(sanitize_for_html("héllo"), "héllo");
    assert_eq!(sanitize_for_html(""), "");
}

#[test]
fn audio_metadata_rules() {
    assert_eq!(validate_audio_metadata(3_600_000, 44_100, 2), Ok(()));
    assert_eq!(validate_audio_metadata(0, 8_000, 1), Ok(()));
    assert_eq!(
        validate_audio_metadata(3_600_001, 44_100, 2),
        Err(verr(ValidationError::InvalidConfigValue("Audio duration cannot exceed 1 hour".to_string())))
    );
    assert_eq!(
        validate_audio_metadata(1_000, 7_999, 1),
        Err(verr(ValidationError::InvalidConfigValue(
            "Invalid sample rate: 7999 (must be between 8000 and 192000)".to_string()
        )))
    );
    assert_eq!(
        validate_audio_metadata(1_000, 192_001, 1),
        Err(verr(ValidationError::InvalidConfigValue(
            "Invalid sample rate: 192001 (must be between 8000 and 192000)".to_string()
        )))
    );
    assert_eq!(
        validate_audio_metadata(1_000, 16_000, 3),
        Err(verr(ValidationError::InvalidConfigValue(
            "Invalid number of channels: 3 (must be 1 or 2)".to_string()
        )))
    );
    assert_eq!(
        validate_audio_metadata(1_000, 16_000, 0),
        Err(verr(ValidationError::InvalidConfigValue(
            "Invalid number of channels: 0 (must be 1 or 2)".to_string()
        )))
    );
}
