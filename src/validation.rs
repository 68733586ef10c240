//! Validation of user-provided text, paths, file names, language codes,
//! hotkeys, configuration values and sizes.
use vstd::prelude::*;
use crate::errors::{AppError, ValidationError};
use crate::text::{
    lower_of, lowercase, chars_of, contains_chars, contains_text, has_substring, same_text, decimal,
    decimal_text,
};

verus! {

/// Maximum length of a text input, in bytes.
pub const MAX_TEXT_LENGTH: usize = 50000;

/// Minimum length of a text input, in bytes.
pub const MIN_TEXT_LENGTH: usize = 1;

/// Maximum file size, in bytes.
pub const MAX_FILE_SIZE: usize = 10 * 1024 * 1024;

/// Maximum length of a path, in bytes.
pub const MAX_PATH_LENGTH: usize = 4096;

/// `r` is the validation error `e`.
pub open spec fn fails_with(r: Result<String, AppError>, e: ValidationError) -> bool {
    r matches Err(AppError::Validation(v)) && v == e
}

/// `r` is an invalid-characters error with message `m`.
pub open spec fn fails_invalid_characters(r: Result<String, AppError>, m: Seq<char>) -> bool {
    r matches Err(AppError::Validation(ValidationError::InvalidCharacters(s))) && s@ == m
}

/// `r` is a path-traversal error with message `m`.
pub open spec fn fails_path_traversal(r: Result<String, AppError>, m: Seq<char>) -> bool {
    r matches Err(AppError::Validation(ValidationError::PathTraversal(s))) && s@ == m
}

/// `r` is an invalid-file-type error with message `m`.
pub open spec fn fails_file_type(r: Result<String, AppError>, m: Seq<char>) -> bool {
    r matches Err(AppError::Validation(ValidationError::InvalidFileType(s))) && s@ == m
}

/// `r` is an invalid-hotkey error with message `m`.
pub open spec fn fails_hotkey(r: Result<String, AppError>, m: Seq<char>) -> bool {
    r matches Err(AppError::Validation(ValidationError::InvalidHotkey(s))) && s@ == m
}

/// `r` is an invalid-configuration-value error with message `m`.
pub open spec fn fails_config<T>(r: Result<T, AppError>, m: Seq<char>) -> bool {
    r matches Err(AppError::Validation(ValidationError::InvalidConfigValue(s))) && s@ == m
}

/// `r` is `Ok` with the text `t`.
pub open spec fn accepts(r: Result<String, AppError>, t: Seq<char>) -> bool {
    r matches Ok(s) && s@ == t
}

/// White space as the standard library classifies it.
pub open spec fn is_white(c: char) -> bool {
    ('\u{9}' <= c && c <= '\u{d}') || c == ' ' || c == '\u{85}' || c == '\u{a0}' || c
        == '\u{1680}' || ('\u{2000}' <= c && c <= '\u{200a}') || c == '\u{2028}' || c
        == '\u{2029}' || c == '\u{202f}' || c == '\u{205f}' || c == '\u{3000}'
}

/// Control characters (general category Cc).
pub open spec fn is_control_char(c: char) -> bool {
    c <= '\u{1f}' || ('\u{7f}' <= c && c <= '\u{9f}')
}

/// The text is empty or white space only.
pub open spec fn blank(s: Seq<char>) -> bool {
    forall|i: int| 0 <= i < s.len() ==> is_white(#[trigger] s[i])
}

/// The text holds a control character other than tab and newline.
pub open spec fn has_forbidden_control(s: Seq<char>) -> bool {
    exists|i: int| 0 <= i < s.len() && is_control_char(#[trigger] s[i]) && s[i] != '\t' && s[i] != '\n'
}

/// Markup fragments that may carry script.
pub open spec fn script_patterns() -> Seq<Seq<char>> {
    seq![
        "<script"@,
        "</script"@,
        "javascript:"@,
        "data:"@,
        "vbscript:"@,
        "onload"@,
        "onerror"@,
        "onclick"@,
        "onmouseover"@,
    ]
}

/// A text `s` whose lowercase form is `lower` holds a forbidden control
/// character or a script pattern.
pub open spec fn invalid_text(s: Seq<char>, lower: Seq<char>) -> bool {
    has_forbidden_control(s) || exists|j: int|
        0 <= j < script_patterns().len() && has_substring(lower, #[trigger] script_patterns()[j])
}

fn is_white_char(c: char) -> (r: bool)
    ensures
        r == is_white(c),
{
    ('\u{9}' <= c && c <= '\u{d}') || c == ' ' || c == '\u{85}' || c == '\u{a0}' || c
        == '\u{1680}' || ('\u{2000}' <= c && c <= '\u{200a}') || c == '\u{2028}' || c
        == '\u{2029}' || c == '\u{202f}' || c == '\u{205f}' || c == '\u{3000}'
}

fn is_blank(s: &Vec<char>) -> (r: bool)
    ensures
        r == blank(s@),
{
    let mut i: usize = 0;
    while i < s.len()
        invariant
            i <= s@.len(),
            forall|j: int| 0 <= j < i ==> is_white(#[trigger] s@[j]),
        decreases s@.len() - i,
    {
        if !is_white_char(s[i]) {
            return false;
        }
        i += 1;
    }
    true
}

fn has_control(s: &Vec<char>) -> (r: bool)
    ensures
        r == has_forbidden_control(s@),
{
    let mut i: usize = 0;
    while i < s.len()
        invariant
            i <= s@.len(),
            forall|j: int|
                0 <= j < i ==> !(is_control_char(#[trigger] s@[j]) && s@[j] != '\t' && s@[j] != '\n'),
        decreases s@.len() - i,
    {
        let c = s[i];
        if (c <= '\u{1f}' || ('\u{7f}' <= c && c <= '\u{9f}')) && c != '\t' && c != '\n' {
            assert(is_control_char(s@[i as int]));
            return true;
        }
        i += 1;
    }
    false
}

/// Whether a text, whose lowercase form is `lowered`, holds a forbidden
/// control character or a script pattern.
pub fn contains_invalid_characters_lowered(input: &str, lowered: &str) -> (r: bool)
    ensures
        r == invalid_text(input@, lowered@),
{
    let chars = chars_of(input);
    if has_control(&chars) {
        return true;
    }
    let lower = chars_of(lowered);
    let patterns: Vec<&str> = vec![
        "<script",
        "</script",
        "javascript:",
        "data:",
        "vbscript:",
        "onload",
        "onerror",
        "onclick",
        "onmouseover",
    ];
    assert(patterns@.map_values(|p: &str| p@) =~= script_patterns());
    let mut j: usize = 0;
    while j < patterns.len()
        invariant
            j <= patterns@.len(),
            patterns@.map_values(|p: &str| p@) == script_patterns(),
            lower@ == lowered@,
            forall|x: int| 0 <= x < j ==> !has_substring(lowered@, #[trigger] script_patterns()[x]),
        decreases patterns@.len() - j,
    {
        assert(patterns@[j as int]@ == script_patterns()[j as int]);
        if contains_text(&lower, patterns[j]) {
            return true;
        }
        j += 1;
    }
    false
}

/// Whether a text holds a forbidden control character or, ignoring case,
/// a script pattern.
pub fn contains_invalid_characters(input: &str) -> (r: bool)
    ensures
        r == invalid_text(input@, lower_of(input@)),
{
    let lowered = lowercase(input);
    contains_invalid_characters_lowered(input, lowered.as_str())
}

/// `o`, or `d` where `o` is `None`.
pub open spec fn or_default(o: Option<usize>, d: usize) -> usize {
    match o {
        Some(v) => v,
        None => d,
    }
}

/// Validates a text input whose lowercase form is `lowered`: it must not be
/// blank, its length in bytes must lie within the bounds (by default
/// `MIN_TEXT_LENGTH` and `MAX_TEXT_LENGTH`), and it must not hold a
/// forbidden control character or a script pattern.
pub fn check_text(
    input: &str,
    lowered: &str,
    min_length: Option<usize>,
    max_length: Option<usize>,
) -> (r: Result<String, AppError>)
    ensures
        if blank(input@) {
            fails_with(r, ValidationError::EmptyInput)
        } else if input.len() < or_default(min_length, MIN_TEXT_LENGTH) {
            fails_with(
                r,
                ValidationError::TextTooShort(input.len(), or_default(min_length, MIN_TEXT_LENGTH)),
            )
        } else if input.len() > or_default(max_length, MAX_TEXT_LENGTH) {
            fails_with(
                r,
                ValidationError::TextTooLong(input.len(), or_default(max_length, MAX_TEXT_LENGTH)),
            )
        } else if invalid_text(input@, lowered@) {
            fails_invalid_characters(r, "Input contains invalid or dangerous characters"@)
        } else {
            accepts(r, input@)
        },
{
    let chars = chars_of(input);
    if is_blank(&chars) {
        return Err(AppError::Validation(ValidationError::EmptyInput));
    }
    let min_len = match min_length {
        Some(m) => m,
        None => MIN_TEXT_LENGTH,
    };
    if input.len() < min_len {
        return Err(AppError::Validation(ValidationError::TextTooShort(input.len(), min_len)));
    }
    let max_len = match max_length {
        Some(m) => m,
        None => MAX_TEXT_LENGTH,
    };
    if input.len() > max_len {
        return Err(AppError::Validation(ValidationError::TextTooLong(input.len(), max_len)));
    }
    if contains_invalid_characters_lowered(input, lowered) {
        return Err(
            AppError::Validation(
                ValidationError::InvalidCharacters(
                    String::from_str("Input contains invalid or dangerous characters"),
                ),
            ),
        );
    }
    Ok(String::from_str(input))
}

/// Validates a text input as [`check_text`] does, with its own lowercase
/// form.
pub fn validate_text(input: &str, min_length: Option<usize>, max_length: Option<usize>) -> (r:
    Result<String, AppError>)
    ensures
        if blank(input@) {
            fails_with(r, ValidationError::EmptyInput)
        } else if input.len() < or_default(min_length, MIN_TEXT_LENGTH) {
            fails_with(
                r,
                ValidationError::TextTooShort(input.len(), or_default(min_length, MIN_TEXT_LENGTH)),
            )
        } else if input.len() > or_default(max_length, MAX_TEXT_LENGTH) {
            fails_with(
                r,
                ValidationError::TextTooLong(input.len(), or_default(max_length, MAX_TEXT_LENGTH)),
            )
        } else if invalid_text(input@, lower_of(input@)) {
            fails_invalid_characters(r, "Input contains invalid or dangerous characters"@)
        } else {
            accepts(r, input@)
        },
{
    let lowered = lowercase(input);
    check_text(input, lowered.as_str(), min_length, max_length)
}

/// What `sanitize_filename` makes of a name, with or without the Windows
/// rules, truncating to 255 bytes and removing what it rejects.
pub uninterp spec fn sanitized(name: Seq<char>, windows: bool) -> Seq<char>;

/// Relies on `sanitize_filename::sanitize_with_options` with its default
/// truncation and an empty replacement: the result depends on the name and
/// the `windows` flag alone.
#[verifier::external_body]
fn sanitize_name(name: &str, windows: bool) -> (r: String)
    ensures
        r@ == sanitized(name@, windows),
{
    sanitize_filename::sanitize_with_options(
        name,
        sanitize_filename::Options { windows, ..Default::default() },
    )
}

/// Validates a path whose sanitized form (without the Windows rules) is
/// `sanitized_path`: at most `MAX_PATH_LENGTH` bytes, no `..` or `~/`, and
/// unchanged by sanitizing.
pub fn check_file_path(path: &str, sanitized_path: &str) -> (r: Result<String, AppError>)
    ensures
        if path.len() > MAX_PATH_LENGTH {
            fails_with(r, ValidationError::InputTooLong(path.len(), MAX_PATH_LENGTH))
        } else if has_substring(path@, ".."@) || has_substring(path@, "~/"@) {
            fails_path_traversal(r, "Path traversal detected"@)
        } else if sanitized_path@ != path@ {
            fails_path_traversal(r, "Path contained invalid characters"@)
        } else {
            accepts(r, sanitized_path@)
        },
{
    if path.len() > MAX_PATH_LENGTH {
        return Err(AppError::Validation(ValidationError::InputTooLong(path.len(), MAX_PATH_LENGTH)));
    }
    let chars = chars_of(path);
    if contains_text(&chars, "..") || contains_text(&chars, "~/") {
        return Err(
            AppError::Validation(
                ValidationError::PathTraversal(String::from_str("Path traversal detected")),
            ),
        );
    }
    if !same_text(sanitized_path, path) {
        return Err(
            AppError::Validation(
                ValidationError::PathTraversal(String::from_str("Path contained invalid characters")),
            ),
        );
    }
    Ok(String::from_str(sanitized_path))
}

/// Validates a path as [`check_file_path`] does, sanitizing it without the
/// Windows rules.
pub fn validate_file_path(path: &str) -> (r: Result<String, AppError>)
    ensures
        if path.len() > MAX_PATH_LENGTH {
            fails_with(r, ValidationError::InputTooLong(path.len(), MAX_PATH_LENGTH))
        } else if has_substring(path@, ".."@) || has_substring(path@, "~/"@) {
            fails_path_traversal(r, "Path traversal detected"@)
        } else if sanitized(path@, false) != path@ {
            fails_path_traversal(r, "Path contained invalid characters"@)
        } else {
            accepts(r, path@)
        },
{
    let s = sanitize_name(path, false);
    check_file_path(path, s.as_str())
}

/// The extension of a file name without separators: the text after its
/// last dot, where that dot is not the first character.
pub open spec fn extension_of(name: Seq<char>) -> Option<Seq<char>> {
    if exists|i: int| 0 < i < name.len() && name[i] == '.' {
        let i = choose|i: int|
            0 < i < name.len() && name[i] == '.' && forall|j: int|
                i < j < name.len() ==> name[j] != '.';
        Some(name.subrange(i + 1, name.len() as int))
    } else {
        None
    }
}

/// Extensions of executable files and scripts.
pub open spec fn forbidden_extensions() -> Seq<Seq<char>> {
    seq!["exe"@, "dll"@, "so"@, "dylib"@, "bat"@, "sh"@, "ps1"@]
}

fn extension(name: &Vec<char>) -> (r: Option<Vec<char>>)
    ensures
        match r {
            Some(e) => extension_of(name@) == Some(e@),
            None => extension_of(name@) is None,
        },
{
    let n = name.len();
    let mut i: usize = n;
    while i > 0 && name[i - 1] != '.'
        invariant
            i <= n,
            n == name@.len(),
            forall|j: int| i <= j < n ==> name@[j] != '.',
        decreases i,
    {
        i -= 1;
    }
    if i <= 1 {
        proof {
            assert forall|k: int| 0 < k < name@.len() implies name@[k] != '.' by {
                if i == 1 {
                    assert(k >= 1);
                }
            }
        }
        return None;
    }
    let dot = i - 1;
    assert(name@[dot as int] == '.');
    let mut out: Vec<char> = Vec::new();
    let mut j: usize = i;
    while j < n
        invariant
            i <= j <= n,
            n == name@.len(),
            out@ == name@.subrange(i as int, j as int),
        decreases n - j,
    {
        out.push(name[j]);
        assert(name@.subrange(i as int, j + 1) =~= name@.subrange(i as int, j as int).push(
            name@[j as int],
        ));
        j += 1;
    }
    proof {
        let w = dot as int;
        assert(0 < w < name@.len() && name@[w] == '.');
        let c = choose|c: int|
            0 < c < name@.len() && name@[c] == '.' && forall|x: int|
                c < x < name@.len() ==> name@[x] != '.';
        assert(0 < w < name@.len() && name@[w] == '.' && forall|x: int|
            w < x < name@.len() ==> name@[x] != '.');
        if c < w {
            assert(name@[w] != '.');
        } else if c > w {
            assert(name@[c] != '.');
        }
    }
    Some(out)
}

fn is_forbidden_extension(ext: &Vec<char>) -> (r: bool)
    ensures
        r == forbidden_extensions().contains(ext@),
{
    let list: Vec<&str> = vec!["exe", "dll", "so", "dylib", "bat", "sh", "ps1"];
    assert(list@.map_values(|p: &str| p@) =~= forbidden_extensions());
    let mut j: usize = 0;
    while j < list.len()
        invariant
            j <= list@.len(),
            list@.map_values(|p: &str| p@) == forbidden_extensions(),
            forall|x: int| 0 <= x < j ==> forbidden_extensions()[x] != ext@,
        decreases list@.len() - j,
    {
        let e = chars_of(list[j]);
        assert(list@[j as int]@ == forbidden_extensions()[j as int]);
        if e.len() == ext.len() && contains_chars(&e, ext) {
            proof {
                let w = choose|w: int| crate::text::occurs_at(e@, ext@, w);
                assert(w == 0);
                assert(e@.subrange(0, e@.len() as int) =~= e@);
            }
            return true;
        }
        proof {
            if e@ == ext@ {
                assert(e@.subrange(0, ext@.len() as int) =~= e@);
                assert(crate::text::occurs_at(e@, ext@, 0));
            }
        }
        j += 1;
    }
    false
}

/// Validates a file name whose sanitized form (with the Windows rules) is
/// `sanitized_name`: not empty, at most 255 bytes, unchanged by sanitizing,
/// and without an executable or script extension.
pub fn check_filename(filename: &str, sanitized_name: &str) -> (r: Result<String, AppError>)
    ensures
        if filename@.len() == 0 {
            fails_with(r, ValidationError::EmptyInput)
        } else if filename.len() > 255 {
            fails_with(r, ValidationError::InputTooLong(filename.len(), 255))
        } else if sanitized_name@ != filename@ || sanitized_name@.len() == 0 {
            fails_invalid_characters(r, "Invalid filename"@)
        } else if extension_of(filename@) matches Some(e) && forbidden_extensions().contains(e) {
            fails_file_type(r, "Forbidden file type"@)
        } else {
            accepts(r, sanitized_name@)
        },
{
    if filename.is_empty() {
        return Err(AppError::Validation(ValidationError::EmptyInput));
    }
    if filename.len() > 255 {
        return Err(AppError::Validation(ValidationError::InputTooLong(filename.len(), 255)));
    }
    if !same_text(sanitized_name, filename) || sanitized_name.is_empty() {
        return Err(
            AppError::Validation(ValidationError::InvalidCharacters(String::from_str("Invalid filename"))),
        );
    }
    let chars = chars_of(filename);
    if let Some(ext) = extension(&chars) {
        if is_forbidden_extension(&ext) {
            return Err(
                AppError::Validation(
                    ValidationError::InvalidFileType(String::from_str("Forbidden file type")),
                ),
            );
        }
    }
    Ok(String::from_str(sanitized_name))
}

/// Validates a file name as [`check_filename`] does, sanitizing it with the
/// Windows rules.
pub fn validate_filename(filename: &str) -> (r: Result<String, AppError>)
    ensures
        if filename@.len() == 0 {
            fails_with(r, ValidationError::EmptyInput)
        } else if filename.len() > 255 {
            fails_with(r, ValidationError::InputTooLong(filename.len(), 255))
        } else if sanitized(filename@, true) != filename@ || filename@.len() == 0 {
            fails_invalid_characters(r, "Invalid filename"@)
        } else if extension_of(filename@) matches Some(e) && forbidden_extensions().contains(e) {
            fails_file_type(r, "Forbidden file type"@)
        } else {
            accepts(r, filename@)
        },
{
    let s = sanitize_name(filename, true);
    check_filename(filename, s.as_str())
}

/// The format of a language code: two lowercase letters, optionally
/// followed by a dash and two uppercase letters.
pub const LANGUAGE_CODE_PATTERN: &'static str = "^[a-z]{2}(-[A-Z]{2})?$";

/// An ASCII lowercase letter.
pub open spec fn ascii_lower(c: char) -> bool {
    'a' <= c && c <= 'z'
}

/// An ASCII uppercase letter.
pub open spec fn ascii_upper(c: char) -> bool {
    'A' <= c && c <= 'Z'
}

/// `code` has the format of `LANGUAGE_CODE_PATTERN`: exactly two ASCII
/// lowercase letters, or those followed by `-` and exactly two ASCII
/// uppercase letters.
pub open spec fn language_code_format(code: Seq<char>) -> bool {
    &&& (code.len() == 2 || (code.len() == 5 && code[2] == '-' && ascii_upper(code[3])
        && ascii_upper(code[4])))
    &&& ascii_lower(code[0])
    &&& ascii_lower(code[1])
}

/// Relies on `regex::Regex::new` and `regex::Regex::is_match`: the language
/// code pattern compiles, and, anchored at both ends of the text with
/// ASCII letter ranges, it matches exactly the texts of
/// `language_code_format`. Nothing is claimed of other patterns.
#[verifier::external_body]
fn regex_match(pattern: &str, text: &str) -> (r: Option<bool>)
    ensures
        pattern@ == LANGUAGE_CODE_PATTERN@ ==> r == Some(language_code_format(text@)),
{
    match regex::Regex::new(pattern) {
        Ok(re) => Some(re.is_match(text)),
        Err(_) => None,
    }
}

/// Validates a language code such as "en" or "en-US".
pub fn validate_language_code(code: &str) -> (r: Result<String, AppError>)
    ensures
        if code@.len() == 0 {
            fails_invalid_characters(r, "Empty language code"@)
        } else if !language_code_format(code@) {
            fails_invalid_characters(r, "Invalid language code format"@)
        } else {
            accepts(r, code@)
        },
{
    if code.is_empty() {
        return Err(
            AppError::Validation(ValidationError::InvalidCharacters(String::from_str("Empty language code"))),
        );
    }
    let format_ok = match regex_match(LANGUAGE_CODE_PATTERN, code) {
        Some(m) => m,
        None => false,
    };
    if !format_ok {
        return Err(
            AppError::Validation(
                ValidationError::InvalidCharacters(String::from_str("Invalid language code format")),
            ),
        );
    }
    Ok(String::from_str(code))
}

/// The keys of which a hotkey must name at least one.
pub open spec fn hotkey_keys() -> Seq<Seq<char>> {
    seq![
        "Space"@, "Enter"@, "Escape"@, "Tab"@, "F1"@, "F2"@, "F3"@, "F4"@, "F5"@, "F6"@, "F7"@,
        "F8"@, "F9"@, "F10"@, "F11"@, "F12"@, "A"@, "B"@, "C"@, "D"@, "E"@, "F"@, "G"@, "H"@,
        "I"@, "J"@, "K"@, "L"@, "M"@, "N"@, "O"@, "P"@, "Q"@, "R"@, "S"@, "T"@, "U"@, "V"@,
        "W"@, "X"@, "Y"@, "Z"@, "0"@, "1"@, "2"@, "3"@, "4"@, "5"@, "6"@, "7"@, "8"@, "9"@,
    ]
}

/// The hotkey names one of `hotkey_keys`.
pub open spec fn names_a_key(hotkey: Seq<char>) -> bool {
    exists|j: int| 0 <= j < hotkey_keys().len() && has_substring(hotkey, #[trigger] hotkey_keys()[j])
}

/// Validates a hotkey combination: not empty, at most 50 bytes, and naming
/// a recognized key.
pub fn validate_hotkey(hotkey: &str) -> (r: Result<String, AppError>)
    ensures
        if hotkey@.len() == 0 {
            fails_hotkey(r, "Empty hotkey"@)
        } else if hotkey.len() > 50 {
            fails_hotkey(r, "Hotkey too long"@)
        } else if !names_a_key(hotkey@) {
            fails_hotkey(r, "Hotkey must contain a valid key"@)
        } else {
            accepts(r, hotkey@)
        },
{
    if hotkey.is_empty() {
        return Err(AppError::Validation(ValidationError::InvalidHotkey(String::from_str("Empty hotkey"))));
    }
    if hotkey.len() > 50 {
        return Err(
            AppError::Validation(ValidationError::InvalidHotkey(String::from_str("Hotkey too long"))),
        );
    }
    let keys: Vec<&str> = vec![
        "Space", "Enter", "Escape", "Tab", "F1", "F2", "F3", "F4", "F5", "F6", "F7", "F8", "F9",
        "F10", "F11", "F12", "A", "B", "C", "D", "E", "F", "G", "H", "I", "J", "K", "L", "M",
        "N", "O", "P", "Q", "R", "S", "T", "U", "V", "W", "X", "Y", "Z", "0", "1", "2", "3",
        "4", "5", "6", "7", "8", "9",
    ];
    assert(keys@.map_values(|p: &str| p@) =~= hotkey_keys());
    let chars = chars_of(hotkey);
    let mut j: usize = 0;
    let mut found = false;
    while j < keys.len() && !found
        invariant
            j <= keys@.len(),
            keys@.map_values(|p: &str| p@) == hotkey_keys(),
            chars@ == hotkey@,
            found ==> names_a_key(hotkey@),
            !found ==> forall|x: int| 0 <= x < j ==> !has_substring(hotkey@, #[trigger] hotkey_keys()[x]),
        decreases keys@.len() - j,
    {
        assert(keys@[j as int]@ == hotkey_keys()[j as int]);
        if contains_text(&chars, keys[j]) {
            found = true;
        }
        j += 1;
    }
    if !found {
        return Err(
            AppError::Validation(
                ValidationError::InvalidHotkey(String::from_str("Hotkey must contain a valid key")),
            ),
        );
    }
    Ok(String::from_str(hotkey))
}

fn one_of(value: &str, options: &Vec<&str>) -> (r: bool)
    ensures
        r == options@.map_values(|p: &str| p@).contains(value@),
{
    let mut j: usize = 0;
    while j < options.len()
        invariant
            j <= options@.len(),
            forall|x: int| 0 <= x < j ==> (#[trigger] options@[x])@ != value@,
        decreases options@.len() - j,
    {
        if same_text(options[j], value) {
            assert(options@.map_values(|p: &str| p@)[j as int] == value@);
            return true;
        }
        j += 1;
    }
    proof {
        let views = options@.map_values(|p: &str| p@);
        if views.contains(value@) {
            let x = choose|x: int| 0 <= x < views.len() && #[trigger] views[x] == value@;
            assert(options@[x]@ == value@);
        }
    }
    false
}

/// The accepted themes.
pub open spec fn valid_themes() -> Seq<Seq<char>> {
    seq!["light"@, "dark"@, "auto"@]
}

/// The accepted tones.
pub open spec fn valid_tones() -> Seq<Seq<char>> {
    seq![
        "professional"@,
        "friendly"@,
        "formal"@,
        "casual"@,
        "empathetic"@,
        "confident"@,
        "persuasive"@,
        "neutral"@,
    ]
}

/// The accepted contexts.
pub open spec fn valid_contexts() -> Seq<Seq<char>> {
    seq![
        "email"@,
        "code"@,
        "document"@,
        "social"@,
        "formal"@,
        "casual"@,
        "technical"@,
        "creative"@,
    ]
}

/// Validates a configuration value of the given type. A language must be
/// a valid language code; a theme, tone or context one of the accepted
/// ones; any other value at most 1000 bytes.
pub fn validate_config_value(value: &str, config_type: &str) -> (r: Result<String, AppError>)
    ensures
        if value@.len() == 0 {
            fails_config(r, "Empty "@ + config_type@ + " value"@)
        } else if config_type@ == "language"@ {
            if !language_code_format(value@) {
                fails_invalid_characters(r, "Invalid language code format"@)
            } else {
                accepts(r, value@)
            }
        } else if config_type@ == "theme"@ {
            if valid_themes().contains(value@) {
                accepts(r, value@)
            } else {
                fails_config(
                    r,
                    "Invalid theme: "@ + value@ + ". Valid themes: [\"light\", \"dark\", \"auto\"]"@,
                )
            }
        } else if config_type@ == "tone"@ {
            if valid_tones().contains(value@) {
                accepts(r, value@)
            } else {
                fails_config(
                    r,
                    "Invalid tone: "@ + value@
                        + ". Valid tones: [\"professional\", \"friendly\", \"formal\", \"casual\", \"empathetic\", \"confident\", \"persuasive\", \"neutral\"]"@,
                )
            }
        } else if config_type@ == "context"@ {
            if valid_contexts().contains(value@) {
                accepts(r, value@)
            } else {
                fails_config(
                    r,
                    "Invalid context: "@ + value@
                        + ". Valid contexts: [\"email\", \"code\", \"document\", \"social\", \"formal\", \"casual\", \"technical\", \"creative\"]"@,
                )
            }
        } else if value.len() > 1000 {
            fails_with(r, ValidationError::InputTooLong(value.len(), 1000))
        } else {
            accepts(r, value@)
        },
{
    if value.is_empty() {
        let mut m = String::from_str("Empty ");
        m.append(config_type);
        m.append(" value");
        return Err(AppError::Validation(ValidationError::InvalidConfigValue(m)));
    }
    if same_text(config_type, "language") {
        validate_language_code(value)
    } else if same_text(config_type, "theme") {
        let options: Vec<&str> = vec!["light", "dark", "auto"];
        assert(options@.map_values(|p: &str| p@) =~= valid_themes());
        if one_of(value, &options) {
            Ok(String::from_str(value))
        } else {
            let mut m = String::from_str("Invalid theme: ");
            m.append(value);
            m.append(". Valid themes: [\"light\", \"dark\", \"auto\"]");
            Err(AppError::Validation(ValidationError::InvalidConfigValue(m)))
        }
    } else if same_text(config_type, "tone") {
        let options: Vec<&str> = vec![
            "professional",
            "friendly",
            "formal",
            "casual",
            "empathetic",
            "confident",
            "persuasive",
            "neutral",
        ];
        assert(options@.map_values(|p: &str| p@) =~= valid_tones());
        if one_of(value, &options) {
            Ok(String::from_str(value))
        } else {
            let mut m = String::from_str("Invalid tone: ");
            m.append(value);
            m.append(
                ". Valid tones: [\"professional\", \"friendly\", \"formal\", \"casual\", \"empathetic\", \"confident\", \"persuasive\", \"neutral\"]",
            );
            Err(AppError::Validation(ValidationError::InvalidConfigValue(m)))
        }
    } else if same_text(config_type, "context") {
        let options: Vec<&str> = vec![
            "email",
            "code",
            "document",
            "social",
            "formal",
            "casual",
            "technical",
            "creative",
        ];
        assert(options@.map_values(|p: &str| p@) =~= valid_contexts());
        if one_of(value, &options) {
            Ok(String::from_str(value))
        } else {
            let mut m = String::from_str("Invalid context: ");
            m.append(value);
            m.append(
                ". Valid contexts: [\"email\", \"code\", \"document\", \"social\", \"formal\", \"casual\", \"technical\", \"creative\"]",
            );
            Err(AppError::Validation(ValidationError::InvalidConfigValue(m)))
        }
    } else {
        if value.len() > 1000 {
            return Err(AppError::Validation(ValidationError::InputTooLong(value.len(), 1000)));
        }
        Ok(String::from_str(value))
    }
}

/// The decimal rendering of a signed integer.
pub open spec fn signed_decimal(v: int) -> Seq<char> {
    if v < 0 {
        "-"@ + decimal((-v) as nat)
    } else {
        decimal(v as nat)
    }
}

fn signed_decimal_text(v: i64) -> (r: String)
    ensures
        r@ == signed_decimal(v as int),
{
    if v < 0 {
        let magnitude: u64 = ((-(v + 1)) as u64) + 1;
        let mut s = String::from_str("-");
        let d = decimal_text(magnitude);
        s.append(d.as_str());
        s
    } else {
        decimal_text(v as u64)
    }
}

/// Validates that `value` lies within `min` and `max`, inclusive.
pub fn validate_numeric_value(value: i64, min: i64, max: i64, value_name: &str) -> (r: Result<
    i64,
    AppError,
>)
    ensures
        if value < min || value > max {
            fails_config(
                r,
                value_name@ + " must be between "@ + signed_decimal(min as int) + " and "@
                    + signed_decimal(max as int) + ", got "@ + signed_decimal(value as int),
            )
        } else {
            r == Ok::<i64, AppError>(value)
        },
{
    if value < min || value > max {
        let mut m = String::from_str(value_name);
        m.append(" must be between ");
        let a = signed_decimal_text(min);
        m.append(a.as_str());
        m.append(" and ");
        let b = signed_decimal_text(max);
        m.append(b.as_str());
        m.append(", got ");
        let c = signed_decimal_text(value);
        m.append(c.as_str());
        return Err(AppError::Validation(ValidationError::InvalidConfigValue(m)));
    }
    Ok(value)
}

/// Longest accepted audio, in milliseconds.
pub const MAX_AUDIO_DURATION_MS: u64 = 3_600_000;

/// Validates audio metadata: at most an hour long, sampled at 8000 to
/// 192000 Hz, mono or stereo. The duration is in milliseconds.
pub fn validate_audio_metadata(duration_ms: u64, sample_rate: u32, channels: u32) -> (r: Result<
    (),
    AppError,
>)
    ensures
        if duration_ms > MAX_AUDIO_DURATION_MS {
            fails_config(r, "Audio duration cannot exceed 1 hour"@)
        } else if sample_rate < 8000 || sample_rate > 192000 {
            fails_config(
                r,
                "Invalid sample rate: "@ + decimal(sample_rate as nat)
                    + " (must be between 8000 and 192000)"@,
            )
        } else if channels < 1 || channels > 2 {
            fails_config(
                r,
                "Invalid number of channels: "@ + decimal(channels as nat) + " (must be 1 or 2)"@,
            )
        } else {
            r is Ok
        },
{
    if duration_ms > MAX_AUDIO_DURATION_MS {
        return Err(
            AppError::Validation(
                ValidationError::InvalidConfigValue(String::from_str("Audio duration cannot exceed 1 hour")),
            ),
        );
    }
    if sample_rate < 8000 || sample_rate > 192000 {
        let mut m = String::from_str("Invalid sample rate: ");
        let d = decimal_text(sample_rate as u64);
        m.append(d.as_str());
        m.append(" (must be between 8000 and 192000)");
        return Err(AppError::Validation(ValidationError::InvalidConfigValue(m)));
    }
    if channels < 1 || channels > 2 {
        let mut m = String::from_str("Invalid number of channels: ");
        let d = decimal_text(channels as u64);
        m.append(d.as_str());
        m.append(" (must be 1 or 2)");
        return Err(AppError::Validation(ValidationError::InvalidConfigValue(m)));
    }
    Ok(())
}

/// Validates a file size: not zero and at most `MAX_FILE_SIZE` bytes.
pub fn validate_file_size(size: u64) -> (r: Result<u64, AppError>)
    ensures
        if size == 0 {
            r matches Err(AppError::Validation(ValidationError::EmptyInput))
        } else if size > MAX_FILE_SIZE {
            r matches Err(AppError::Validation(ValidationError::FileTooLarge(a, b))) && a == size
                && b == MAX_FILE_SIZE as u64
        } else {
            r == Ok::<u64, AppError>(size)
        },
{
    if size == 0 {
        return Err(AppError::Validation(ValidationError::EmptyInput));
    }
    if size > MAX_FILE_SIZE as u64 {
        return Err(AppError::Validation(ValidationError::FileTooLarge(size, MAX_FILE_SIZE as u64)));
    }
    Ok(size)
}

/// The HTML entity for a character that HTML gives a meaning, or the
/// character itself.
pub open spec fn html_escape_char(c: char) -> Seq<char> {
    if c == '&' {
        "&amp;"@
    } else if c == '<' {
        "&lt;"@
    } else if c == '>' {
        "&gt;"@
    } else if c == '"' {
        "&quot;"@
    } else if c == '\'' {
        "&#x27;"@
    } else {
        seq![c]
    }
}

/// `s` with each character replaced by its HTML escape.
pub open spec fn html_escaped(s: Seq<char>) -> Seq<char>
    decreases s.len(),
{
    if s.len() == 0 {
        Seq::empty()
    } else {
        html_escaped(s.drop_last()) + html_escape_char(s.last())
    }
}

/// Relies on `String::push`: appends one character.
#[verifier::external_body]
fn push_char(s: &mut String, c: char)
    ensures
        final(s)@ == old(s)@.push(c),
{
    s.push(c)
}

/// Escapes `&`, `<`, `>`, `"` and `'` for HTML output.
pub fn sanitize_for_html(input: &str) -> (r: String)
    ensures
        r@ == html_escaped(input@),
{
    let chars = chars_of(input);
    let mut out = String::new();
    let mut i: usize = 0;
    while i < chars.len()
        invariant
            i <= chars@.len(),
            chars@ == input@,
            out@ == html_escaped(chars@.take(i as int)),
        decreases chars@.len() - i,
    {
        let c = chars[i];
        proof {
            assert(chars@.take(i + 1).drop_last() =~= chars@.take(i as int));
            assert(chars@.take(i + 1).last() == c);
        }
        if c == '&' {
            out.append("&amp;");
        } else if c == '<' {
            out.append("&lt;");
        } else if c == '>' {
            out.append("&gt;");
        } else if c == '"' {
            out.append("&quot;");
        } else if c == '\'' {
            out.append("&#x27;");
        } else {
            push_char(&mut out, c);
        }
        i += 1;
    }
    assert(chars@.take(chars@.len() as int) =~= chars@);
    out
}

} // verus!
