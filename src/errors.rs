//! Error taxonomy of the application and the bounded error reporter.
use vstd::prelude::*;
use std::collections::VecDeque;
use crate::text::{decimal, decimal_text};

verus! {

/// Application-level error.
#[derive(Debug, Clone, PartialEq, Eq)]
pub enum AppError {
    VoiceRecognition(VoiceError),
    TextProcessing(TextProcessingError),
    Configuration(String),
    Validation(ValidationError),
    Resource(ResourceError),
    Security(String),
    Network(String),
    Permission(String),
    Internal(String),
}

/// Voice recognition errors.
#[derive(Debug, Clone, PartialEq, Eq)]
pub enum VoiceError {
    NotInitialized,
    AlreadyInitialized,
    InvalidLanguage(String),
    AudioCaptureFailed(String),
    Timeout,
    NoAudioInput,
    LowAudioQuality,
    UnsupportedFormat,
    AudioMemoryError,
}

/// Text processing errors.
#[derive(Debug, Clone, PartialEq, Eq)]
pub enum TextProcessingError {
    NotInitialized,
    TextTooLong(usize, usize),
    TextTooShort(usize, usize),
    InvalidContext(String),
    InvalidTone(String),
    ProcessingTimeout(u64),
    ProcessCommunicationFailed(String),
    InvalidOptions(String),
}

/// Input validation errors.
#[derive(Debug, Clone, PartialEq, Eq)]
pub enum ValidationError {
    EmptyInput,
    InputTooLong(usize, usize),
    TextTooShort(usize, usize),
    TextTooLong(usize, usize),
    InvalidCharacters(String),
    PathTraversal(String),
    InvalidFileType(String),
    FileTooLarge(u64, u64),
    InvalidConfigValue(String),
    InvalidHotkey(String),
}

/// Resource management errors.
#[derive(Debug, Clone, PartialEq, Eq)]
pub enum ResourceError {
    MemoryAllocationFailed,
    CleanupFailed(String),
    NotFound(String),
    AlreadyExists(String),
    ResourceLocked(String),
    ResourceLimitExceeded(String),
}

/// "`label`: `a` characters (`bound_label`: `b`)"
pub open spec fn count_text(label: Seq<char>, a: nat, bound_label: Seq<char>, b: nat) -> Seq<char> {
    label + decimal(a) + bound_label + decimal(b) + ")"@
}

fn count_message(label: &str, a: u64, bound_label: &str, b: u64) -> (r: String)
    ensures
        r@ == count_text(label@, a as nat, bound_label@, b as nat),
{
    let mut s = String::from_str(label);
    let x = decimal_text(a);
    s.append(x.as_str());
    s.append(bound_label);
    let y = decimal_text(b);
    s.append(y.as_str());
    s.append(")");
    s
}

fn prefixed(prefix: &str, rest: &str) -> (r: String)
    ensures
        r@ == prefix@ + rest@,
{
    let mut s = String::from_str(prefix);
    s.append(rest);
    s
}

impl VoiceError {
    /// The message of this error.
    pub open spec fn text(&self) -> Seq<char> {
        match self {
            VoiceError::NotInitialized => "Engine not initialized"@,
            VoiceError::AlreadyInitialized => "Engine already initialized"@,
            VoiceError::InvalidLanguage(s) => "Invalid language code: "@ + s@,
            VoiceError::AudioCaptureFailed(s) => "Audio capture failed: "@ + s@,
            VoiceError::Timeout => "Speech recognition timeout"@,
            VoiceError::NoAudioInput => "No audio input detected"@,
            VoiceError::LowAudioQuality => "Audio quality too low"@,
            VoiceError::UnsupportedFormat => "Unsupported audio format"@,
            VoiceError::AudioMemoryError => "Memory allocation failed for audio buffer"@,
        }
    }

    /// Renders the message of this error.
    pub fn message(&self) -> (r: String)
        ensures
            r@ == self.text(),
    {
        match self {
            VoiceError::NotInitialized => String::from_str("Engine not initialized"),
            VoiceError::AlreadyInitialized => String::from_str("Engine already initialized"),
            VoiceError::InvalidLanguage(s) => prefixed("Invalid language code: ", s.as_str()),
            VoiceError::AudioCaptureFailed(s) => prefixed("Audio capture failed: ", s.as_str()),
            VoiceError::Timeout => String::from_str("Speech recognition timeout"),
            VoiceError::NoAudioInput => String::from_str("No audio input detected"),
            VoiceError::LowAudioQuality => String::from_str("Audio quality too low"),
            VoiceError::UnsupportedFormat => String::from_str("Unsupported audio format"),
            VoiceError::AudioMemoryError => String::from_str(
                "Memory allocation failed for audio buffer",
            ),
        }
    }
}

impl TextProcessingError {
    /// The message of this error.
    pub open spec fn text(&self) -> Seq<char> {
        match self {
            TextProcessingError::NotInitialized => "Text processor not initialized"@,
            TextProcessingError::TextTooLong(a, b) => count_text(
                "Text too long: "@,
                *a as nat,
                " characters (max: "@,
                *b as nat,
            ),
            TextProcessingError::TextTooShort(a, b) => count_text(
                "Text too short: "@,
                *a as nat,
                " characters (min: "@,
                *b as nat,
            ),
            TextProcessingError::InvalidContext(s) => "Invalid context: "@ + s@,
            TextProcessingError::InvalidTone(s) => "Invalid tone: "@ + s@,
            TextProcessingError::ProcessingTimeout(ms) => "Processing timeout after "@ + decimal(
                *ms as nat,
            ) + "ms"@,
            TextProcessingError::ProcessCommunicationFailed(s) =>
                "Python process communication failed: "@ + s@,
            TextProcessingError::InvalidOptions(s) => "Invalid processing options: "@ + s@,
        }
    }

    /// Renders the message of this error.
    pub fn message(&self) -> (r: String)
        ensures
            r@ == self.text(),
    {
        match self {
            TextProcessingError::NotInitialized => String::from_str(
                "Text processor not initialized",
            ),
            TextProcessingError::TextTooLong(a, b) => count_message(
                "Text too long: ",
                *a as u64,
                " characters (max: ",
                *b as u64,
            ),
            TextProcessingError::TextTooShort(a, b) => count_message(
                "Text too short: ",
                *a as u64,
                " characters (min: ",
                *b as u64,
            ),
            TextProcessingError::InvalidContext(s) => prefixed("Invalid context: ", s.as_str()),
            TextProcessingError::InvalidTone(s) => prefixed("Invalid tone: ", s.as_str()),
            TextProcessingError::ProcessingTimeout(ms) => {
                let mut s = String::from_str("Processing timeout after ");
                let d = decimal_text(*ms);
                s.append(d.as_str());
                s.append("ms");
                s
            },
            TextProcessingError::ProcessCommunicationFailed(s) => prefixed(
                "Python process communication failed: ",
                s.as_str(),
            ),
            TextProcessingError::InvalidOptions(s) => prefixed(
                "Invalid processing options: ",
                s.as_str(),
            ),
        }
    }
}

impl ValidationError {
    /// The message of this error.
    pub open spec fn text(&self) -> Seq<char> {
        match self {
            ValidationError::EmptyInput => "Empty input provided"@,
            ValidationError::InputTooLong(a, b) => count_text(
                "Input too long: "@,
                *a as nat,
                " characters (max: "@,
                *b as nat,
            ),
            ValidationError::TextTooShort(a, b) => count_text(
                "Text too short: "@,
                *a as nat,
                " characters (min: "@,
                *b as nat,
            ),
            ValidationError::TextTooLong(a, b) => count_text(
                "Text too long: "@,
                *a as nat,
                " characters (max: "@,
                *b as nat,
            ),
            ValidationError::InvalidCharacters(s) => "Input contains invalid characters: "@ + s@,
            ValidationError::PathTraversal(s) => "Path traversal detected: "@ + s@,
            ValidationError::InvalidFileType(s) => "Invalid file type: "@ + s@,
            ValidationError::FileTooLarge(a, b) => "File size too large: "@ + decimal(*a as nat)
                + " bytes (max: "@ + decimal(*b as nat) + " bytes)"@,
            ValidationError::InvalidConfigValue(s) => "Invalid configuration value: "@ + s@,
            ValidationError::InvalidHotkey(s) => "Invalid hotkey format: "@ + s@,
        }
    }

    /// Renders the message of this error.
    pub fn message(&self) -> (r: String)
        ensures
            r@ == self.text(),
    {
        match self {
            ValidationError::EmptyInput => String::from_str("Empty input provided"),
            ValidationError::InputTooLong(a, b) => count_message(
                "Input too long: ",
                *a as u64,
                " characters (max: ",
                *b as u64,
            ),
            ValidationError::TextTooShort(a, b) => count_message(
                "Text too short: ",
                *a as u64,
                " characters (min: ",
                *b as u64,
            ),
            ValidationError::TextTooLong(a, b) => count_message(
                "Text too long: ",
                *a as u64,
                " characters (max: ",
                *b as u64,
            ),
            ValidationError::InvalidCharacters(s) => prefixed(
                "Input contains invalid characters: ",
                s.as_str(),
            ),
            ValidationError::PathTraversal(s) => prefixed("Path traversal detected: ", s.as_str()),
            ValidationError::InvalidFileType(s) => prefixed("Invalid file type: ", s.as_str()),
            ValidationError::FileTooLarge(a, b) => {
                let mut s = String::from_str("File size too large: ");
                let x = decimal_text(*a);
                s.append(x.as_str());
                s.append(" bytes (max: ");
                let y = decimal_text(*b);
                s.append(y.as_str());
                s.append(" bytes)");
                s
            },
            ValidationError::InvalidConfigValue(s) => prefixed(
                "Invalid configuration value: ",
                s.as_str(),
            ),
            ValidationError::InvalidHotkey(s) => prefixed("Invalid hotkey format: ", s.as_str()),
        }
    }
}

impl ResourceError {
    /// The message of this error.
    pub open spec fn text(&self) -> Seq<char> {
        match self {
            ResourceError::MemoryAllocationFailed => "Memory allocation failed"@,
            ResourceError::CleanupFailed(s) => "Resource cleanup failed: "@ + s@,
            ResourceError::NotFound(s) => "Resource not found: "@ + s@,
            ResourceError::AlreadyExists(s) => "Resource already exists: "@ + s@,
            ResourceError::ResourceLocked(s) => "Resource locked: "@ + s@,
            ResourceError::ResourceLimitExceeded(s) => "Resource limit exceeded: "@ + s@,
        }
    }

    /// Renders the message of this error.
    pub fn message(&self) -> (r: String)
        ensures
            r@ == self.text(),
    {
        match self {
            ResourceError::MemoryAllocationFailed => String::from_str("Memory allocation failed"),
            ResourceError::CleanupFailed(s) => prefixed("Resource cleanup failed: ", s.as_str()),
            ResourceError::NotFound(s) => prefixed("Resource not found: ", s.as_str()),
            ResourceError::AlreadyExists(s) => prefixed("Resource already exists: ", s.as_str()),
            ResourceError::ResourceLocked(s) => prefixed("Resource locked: ", s.as_str()),
            ResourceError::ResourceLimitExceeded(s) => prefixed(
                "Resource limit exceeded: ",
                s.as_str(),
            ),
        }
    }
}

impl AppError {
    /// The message of this error.
    pub open spec fn text(&self) -> Seq<char> {
        match self {
            AppError::VoiceRecognition(e) => "Voice recognition error: "@ + e.text(),
            AppError::TextProcessing(e) => "Text processing error: "@ + e.text(),
            AppError::Configuration(s) => "Configuration error: "@ + s@,
            AppError::Validation(e) => "Input validation error: "@ + e.text(),
            AppError::Resource(e) => "Resource management error: "@ + e.text(),
            AppError::Security(s) => "Security violation: "@ + s@,
            AppError::Network(s) => "Network error: "@ + s@,
            AppError::Permission(s) => "Permission denied: "@ + s@,
            AppError::Internal(s) => "Internal error: "@ + s@,
        }
    }

    /// Renders the message of this error.
    pub fn message(&self) -> (r: String)
        ensures
            r@ == self.text(),
    {
        match self {
            AppError::VoiceRecognition(e) => {
                let m = e.message();
                prefixed("Voice recognition error: ", m.as_str())
            },
            AppError::TextProcessing(e) => {
                let m = e.message();
                prefixed("Text processing error: ", m.as_str())
            },
            AppError::Configuration(s) => prefixed("Configuration error: ", s.as_str()),
            AppError::Validation(e) => {
                let m = e.message();
                prefixed("Input validation error: ", m.as_str())
            },
            AppError::Resource(e) => {
                let m = e.message();
                prefixed("Resource management error: ", m.as_str())
            },
            AppError::Security(s) => prefixed("Security violation: ", s.as_str()),
            AppError::Network(s) => prefixed("Network error: ", s.as_str()),
            AppError::Permission(s) => prefixed("Permission denied: ", s.as_str()),
            AppError::Internal(s) => prefixed("Internal error: ", s.as_str()),
        }
    }
}

/// How many recent messages an [`ErrorReporter`] keeps.
pub const MAX_RECENT_ERRORS: usize = 100;

/// The entry that the reporter keeps for error number `n` with message `msg`.
pub open spec fn report_entry(n: u64, msg: Seq<char>) -> Seq<char> {
    "["@ + decimal(n as nat) + "] "@ + msg
}

/// Keeps the last `max` entries of `s`.
pub open spec fn keep_last(s: Seq<Seq<char>>, max: nat) -> Seq<Seq<char>> {
    if s.len() > max {
        s.subrange(s.len() - max, s.len() as int)
    } else {
        s
    }
}

/// Counts reported errors and keeps a bounded history of their messages.
pub struct ErrorReporter {
    error_count: u64,
    last_errors: VecDeque<String>,
    max_errors: usize,
}

/// What a reporter holds: the number of errors reported since the last
/// clear, the recent messages (oldest first), and how many it keeps.
pub ghost struct ReporterView {
    pub count: u64,
    pub recent: Seq<Seq<char>>,
    pub capacity: nat,
}

impl View for ErrorReporter {
    type V = ReporterView;

    closed spec fn view(&self) -> ReporterView {
        ReporterView {
            count: self.error_count,
            recent: self.last_errors@.map_values(|s: String| s@),
            capacity: self.max_errors as nat,
        }
    }
}

impl Default for ErrorReporter {
    fn default() -> (r: Self)
        ensures
            r.wf(),
            r@.count == 0,
            r@.recent == Seq::<Seq<char>>::empty(),
    {
        ErrorReporter::new()
    }
}

impl ErrorReporter {
    /// Well-formedness: the history never exceeds its capacity, which is
    /// positive.
    pub open spec fn wf(&self) -> bool {
        &&& self@.capacity == MAX_RECENT_ERRORS
        &&& self@.recent.len() <= self@.capacity
    }

    /// An empty reporter.
    pub fn new() -> (r: Self)
        ensures
            r.wf(),
            r@.count == 0,
            r@.recent == Seq::<Seq<char>>::empty(),
    {
        let r = ErrorReporter { error_count: 0, last_errors: VecDeque::new(), max_errors: MAX_RECENT_ERRORS };
        assert(r@.recent =~= Seq::<Seq<char>>::empty());
        r
    }

    /// Records one error with the given message. The entry kept is the
    /// message prefixed by the error's number, counting from zero; the
    /// oldest entry is dropped once more than the capacity are held.
    pub fn report_error(&mut self, message: &str)
        requires
            old(self).wf(),
        ensures
            final(self).wf(),
            final(self)@.count == (old(self)@.count + 1) % 0x1_0000_0000_0000_0000,
            final(self)@.recent == keep_last(
                old(self)@.recent.push(report_entry(old(self)@.count, message@)),
                old(self)@.capacity,
            ),
    {
        let n = self.error_count;
        let mut entry = String::from_str("[");
        let d = decimal_text(n);
        entry.append(d.as_str());
        entry.append("] ");
        entry.append(message);
        let ghost before = self@.recent;
        self.last_errors.push_back(entry);
        assert(self.last_errors@.map_values(|s: String| s@) =~= before.push(
            report_entry(n, message@),
        ));
        if self.last_errors.len() > self.max_errors {
            self.last_errors.pop_front();
            assert(self.last_errors@.map_values(|s: String| s@) =~= keep_last(
                before.push(report_entry(n, message@)),
                MAX_RECENT_ERRORS as nat,
            ));
        }
        self.error_count = n.wrapping_add(1);
    }

    /// The number of errors reported since the last clear.
    pub fn get_error_count(&self) -> (r: u64)
        ensures
            r == self@.count,
    {
        self.error_count
    }

    /// The recent messages, oldest first.
    pub fn get_recent_errors(&self) -> (r: Vec<String>)
        ensures
            r@.map_values(|s: String| s@) == self@.recent,
    {
        let mut out: Vec<String> = Vec::new();
        let mut i: usize = 0;
        while i < self.last_errors.len()
            invariant
                i <= self.last_errors@.len(),
                out@.len() == i,
                forall|j: int| 0 <= j < i ==> out@[j]@ == self.last_errors@[j]@,
            decreases self.last_errors@.len() - i,
        {
            out.push(self.last_errors[i].clone());
            i += 1;
        }
        assert(out@.map_values(|s: String| s@) =~= self.last_errors@.map_values(|s: String| s@));
        out
    }

    /// Forgets every message and resets the count to zero.
    pub fn clear_errors(&mut self)
        requires
            old(self).wf(),
        ensures
            final(self).wf(),
            final(self)@.count == 0,
            final(self)@.recent == Seq::<Seq<char>>::empty(),
            final(self)@.capacity == old(self)@.capacity,
    {
        self.last_errors.clear();
        self.error_count = 0;
        assert(self@.recent =~= Seq::<Seq<char>>::empty());
    }
}

} // verus!
