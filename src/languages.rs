//! Languages supported by speech recognition.
use vstd::prelude::*;
use crate::text::same_text;

verus! {

/// A supported language.
#[derive(Debug, Clone)]
pub struct Language {
    pub code: String,
    pub name: String,
    pub native_name: String,
    pub flag: String,
}

/// The supported languages as (code, name, native name, flag), in the order
/// in which they are offered.
pub open spec fn language_table() -> Seq<(Seq<char>, Seq<char>, Seq<char>, Seq<char>)> {
    seq![
        ("en-US"@, "English (US)"@, "English (US)"@, "🇺🇸"@),
        ("en-GB"@, "English (UK)"@, "English (UK)"@, "🇬🇧"@),
        ("es-ES"@, "Spanish (Spain)"@, "Español (España)"@, "🇪🇸"@),
        ("es-MX"@, "Spanish (Mexico)"@, "Español (México)"@, "🇲🇽"@),
        ("fr-FR"@, "French"@, "Français"@, "🇫🇷"@),
        ("de-DE"@, "German"@, "Deutsch"@, "🇩🇪"@),
        ("it-IT"@, "Italian"@, "Italiano"@, "🇮🇹"@),
        ("pt-PT"@, "Portuguese (Portugal)"@, "Português (Portugal)"@, "🇵🇹"@),
        ("pt-BR"@, "Portuguese (Brazil)"@, "Português (Brasil)"@, "🇧🇷"@),
        ("zh-CN"@, "Chinese (Simplified)"@, "中文（简体）"@, "🇨🇳"@),
        ("zh-TW"@, "Chinese (Traditional)"@, "中文（繁體）"@, "🇹🇼"@),
        ("ja-JP"@, "Japanese"@, "日本語"@, "🇯🇵"@),
        ("ko-KR"@, "Korean"@, "한국어"@, "🇰🇷"@),
        ("ar-SA"@, "Arabic"@, "العربية"@, "🇸🇦"@),
        ("hi-IN"@, "Hindi"@, "हिन्दी"@, "🇮🇳"@),
        ("ru-RU"@, "Russian"@, "Русский"@, "🇷🇺"@),
        ("nl-NL"@, "Dutch"@, "Nederlands"@, "🇳🇱"@),
        ("sv-SE"@, "Swedish"@, "Svenska"@, "🇸🇪"@),
        ("no-NO"@, "Norwegian"@, "Norsk"@, "🇳🇴"@),
        ("da-DK"@, "Danish"@, "Dansk"@, "🇩🇰"@),
    ]
}

/// `l` holds the row `row` of the language table.
pub open spec fn language_is(l: Language, row: (Seq<char>, Seq<char>, Seq<char>, Seq<char>)) -> bool {
    l.code@ == row.0 && l.name@ == row.1 && l.native_name@ == row.2 && l.flag@ == row.3
}

fn language(code: &str, name: &str, native_name: &str, flag: &str) -> (r: Language)
    ensures
        language_is(r, (code@, name@, native_name@, flag@)),
{
    Language {
        code: String::from_str(code),
        name: String::from_str(name),
        native_name: String::from_str(native_name),
        flag: String::from_str(flag),
    }
}

/// The languages supported by speech recognition.
pub fn get_supported_languages() -> (r: Vec<Language>)
    ensures
        r@.len() == language_table().len(),
        forall|i: int| 0 <= i < r@.len() ==> language_is(#[trigger] r@[i], language_table()[i]),
{
    let mut v: Vec<Language> = Vec::new();
    v.push(language("en-US", "English (US)", "English (US)", "🇺🇸"));
    v.push(language("en-GB", "English (UK)", "English (UK)", "🇬🇧"));
    v.push(language("es-ES", "Spanish (Spain)", "Español (España)", "🇪🇸"));
    v.push(language("es-MX", "Spanish (Mexico)", "Español (México)", "🇲🇽"));
    v.push(language("fr-FR", "French", "Français", "🇫🇷"));
    v.push(language("de-DE", "German", "Deutsch", "🇩🇪"));
    v.push(language("it-IT", "Italian", "Italiano", "🇮🇹"));
    v.push(language("pt-PT", "Portuguese (Portugal)", "Português (Portugal)", "🇵🇹"));
    v.push(language("pt-BR", "Portuguese (Brazil)", "Português (Brasil)", "🇧🇷"));
    v.push(language("zh-CN", "Chinese (Simplified)", "中文（简体）", "🇨🇳"));
    v.push(language("zh-TW", "Chinese (Traditional)", "中文（繁體）", "🇹🇼"));
    v.push(language("ja-JP", "Japanese", "日本語", "🇯🇵"));
    v.push(language("ko-KR", "Korean", "한국어", "🇰🇷"));
    v.push(language("ar-SA", "Arabic", "العربية", "🇸🇦"));
    v.push(language("hi-IN", "Hindi", "हिन्दी", "🇮🇳"));
    v.push(language("ru-RU", "Russian", "Русский", "🇷🇺"));
    v.push(language("nl-NL", "Dutch", "Nederlands", "🇳🇱"));
    v.push(language("sv-SE", "Swedish", "Svenska", "🇸🇪"));
    v.push(language("no-NO", "Norwegian", "Norsk", "🇳🇴"));
    v.push(language("da-DK", "Danish", "Dansk", "🇩🇰"));
    v
}

/// The codes of the supported languages.
pub open spec fn supported_codes() -> Seq<Seq<char>> {
    language_table().map_values(|row: (Seq<char>, Seq<char>, Seq<char>, Seq<char>)| row.0)
}

/// Whether speech recognition supports the language with code
/// `language_code`.
pub fn is_language_supported(language_code: &str) -> (r: bool)
    ensures
        r == supported_codes().contains(language_code@),
{
    let languages = get_supported_languages();
    let mut i: usize = 0;
    while i < languages.len()
        invariant
            i <= languages@.len(),
            languages@.len() == language_table().len(),
            forall|j: int| 0 <= j < languages@.len() ==> language_is(#[trigger] languages@[j], language_table()[j]),
            forall|j: int| 0 <= j < i ==> supported_codes()[j] != language_code@,
        decreases languages@.len() - i,
    {
        assert(language_is(languages@[i as int], language_table()[i as int]));
        if same_text(languages[i].code.as_str(), language_code) {
            assert(supported_codes()[i as int] == language_code@);
            return true;
        }
        i += 1;
    }
    proof {
        if supported_codes().contains(language_code@) {
            let j = choose|j: int| 0 <= j < supported_codes().len() && #[trigger] supported_codes()[j] == language_code@;
            assert(supported_codes()[j] != language_code@);
        }
    }
    false
}

} // verus!
