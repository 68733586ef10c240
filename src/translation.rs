//! Translation requests: their context, the output formats a translation
//! can be delivered in, and the cultural adaptations recorded for it.
use vstd::prelude::*;
use crate::text::same_text;

verus! {

/// Translation context.
#[derive(Debug, Clone)]
pub struct TranslationContext {
    pub domain: TranslationDomain,
    pub audience: String,
    pub purpose: String,
    pub formality_level: FormalityLevel,
    pub cultural_considerations: bool,
    pub technical_terminology: bool,
}

/// Translation domains.
#[derive(Debug, Clone, Copy, PartialEq, Eq, Structural)]
pub enum TranslationDomain {
    General,
    Technical,
    Medical,
    Legal,
    Business,
    Academic,
    Literary,
    Scientific,
    Software,
    Marketing,
}

/// Formality levels.
#[derive(Debug, Clone, Copy, PartialEq, Eq, Structural)]
pub enum FormalityLevel {
    VeryFormal,
    Formal,
    Neutral,
    Informal,
    VeryInformal,
}

/// A cultural adaptation made in a translation.
#[derive(Debug, Clone)]
pub struct CulturalAdaptation {
    pub original_term: String,
    pub adapted_term: String,
    pub reason: String,
    pub cultural_context: String,
}

/// Translation metadata.
#[derive(Debug, Clone)]
pub struct TranslationMetadata {
    pub model_used: String,
    pub tokens_consumed: u32,
    pub context_window_used: usize,
    pub domain_specific_adaptations: Vec<String>,
    pub quality_recommendations: Vec<String>,
}

/// Text directions.
#[derive(Debug, Clone, Copy, PartialEq, Eq, Structural)]
pub enum TextDirection {
    LeftToRight,
    RightToLeft,
    TopToBottom,
    BottomToTop,
}

/// Language quality levels.
#[derive(Debug, Clone, Copy, PartialEq, Eq, Structural)]
pub enum LanguageQuality {
    Native,
    NearNative,
    High,
    Good,
    Basic,
}

/// Translation request with enhancement.
#[derive(Debug, Clone)]
pub struct EnhancedTranslationRequest {
    pub id: String,
    pub text: String,
    pub source_language: Option<String>,
    pub target_language: String,
    pub enhancement_level: EnhancementLevel,
    pub output_format: OutputFormat,
}

/// Enhancement levels.
#[derive(Debug, Clone, Copy, PartialEq, Eq, Structural)]
pub enum EnhancementLevel {
    /// Standard translation only.
    Basic,
    /// Translation and basic improvements.
    Enhanced,
    /// Translation, context and cultural adaptation.
    Full,
    /// Translation, creative adaptation and style enhancement.
    Creative,
}

/// Output formats.
#[derive(Debug, Clone, Copy, PartialEq, Eq, Structural)]
pub enum OutputFormat {
    PlainText,
    Markdown,
    HTML,
    SSML,
    JSON,
}

/// The translated text `t` presented in `format`; `None` for JSON, which
/// serializes the whole result rather than wrapping the text.
pub open spec fn formatted(t: Seq<char>, format: OutputFormat) -> Option<Seq<char>> {
    match format {
        OutputFormat::PlainText => Some(t),
        OutputFormat::Markdown => Some("# Translated Content\n\n"@ + t),
        OutputFormat::HTML => Some("<div class=\"translated-content\">"@ + t + "</div>"@),
        OutputFormat::SSML => Some("<speak>"@ + t + "</speak>"@),
        OutputFormat::JSON => None,
    }
}

/// Presents a translated text in an output format; `None` for JSON, whose
/// serialization of the whole result is left to the caller.
pub fn apply_format(translated: &str, format: OutputFormat) -> (r: Option<String>)
    ensures
        match r {
            Some(s) => formatted(translated@, format) == Some(s@),
            None => formatted(translated@, format) is None,
        },
{
    match format {
        OutputFormat::PlainText => Some(String::from_str(translated)),
        OutputFormat::Markdown => {
            let mut s = String::from_str("# Translated Content\n\n");
            s.append(translated);
            Some(s)
        },
        OutputFormat::HTML => {
            let mut s = String::from_str("<div class=\"translated-content\">");
            s.append(translated);
            s.append("</div>");
            Some(s)
        },
        OutputFormat::SSML => {
            let mut s = String::from_str("<speak>");
            s.append(translated);
            s.append("</speak>");
            Some(s)
        },
        OutputFormat::JSON => None,
    }
}

/// The cultural adaptations recorded for a translation into
/// `target_language`: one general courtesy adaptation where the context
/// asks for cultural considerations and the target is not English, none
/// otherwise.
pub fn extract_cultural_adaptations(context: &TranslationContext, target_language: &str) -> (r:
    Vec<CulturalAdaptation>)
    ensures
        context.cultural_considerations && target_language@ != "en"@ ==> r@.len() == 1
            && r@[0].original_term@ == "Hello"@ && r@[0].adapted_term@ == "Cultural greeting"@
            && r@[0].reason@ == "Adapted for target culture"@ && r@[0].cultural_context@
            == "General courtesy"@,
        !(context.cultural_considerations && target_language@ != "en"@) ==> r@.len() == 0,
{
    let mut adaptations: Vec<CulturalAdaptation> = Vec::new();
    if context.cultural_considerations && !same_text(target_language, "en") {
        adaptations.push(
            CulturalAdaptation {
                original_term: String::from_str("Hello"),
                adapted_term: String::from_str("Cultural greeting"),
                reason: String::from_str("Adapted for target culture"),
                cultural_context: String::from_str("General courtesy"),
            },
        );
    }
    adaptations
}

impl TranslationDomain {
    /// The name of the variant.
    pub open spec fn name(&self) -> Seq<char> {
        match self {
            TranslationDomain::General => "General"@,
            TranslationDomain::Technical => "Technical"@,
            TranslationDomain::Medical => "Medical"@,
            TranslationDomain::Legal => "Legal"@,
            TranslationDomain::Business => "Business"@,
            TranslationDomain::Academic => "Academic"@,
            TranslationDomain::Literary => "Literary"@,
            TranslationDomain::Scientific => "Scientific"@,
            TranslationDomain::Software => "Software"@,
            TranslationDomain::Marketing => "Marketing"@,
        }
    }

    /// The name of the variant.
    pub fn as_name(&self) -> (r: &'static str)
        ensures
            r@ == self.name(),
    {
        match self {
            TranslationDomain::General => "General",
            TranslationDomain::Technical => "Technical",
            TranslationDomain::Medical => "Medical",
            TranslationDomain::Legal => "Legal",
            TranslationDomain::Business => "Business",
            TranslationDomain::Academic => "Academic",
            TranslationDomain::Literary => "Literary",
            TranslationDomain::Scientific => "Scientific",
            TranslationDomain::Software => "Software",
            TranslationDomain::Marketing => "Marketing",
        }
    }
}

impl FormalityLevel {
    /// The name of the variant.
    pub open spec fn name(&self) -> Seq<char> {
        match self {
            FormalityLevel::VeryFormal => "VeryFormal"@,
            FormalityLevel::Formal => "Formal"@,
            FormalityLevel::Neutral => "Neutral"@,
            FormalityLevel::Informal => "Informal"@,
            FormalityLevel::VeryInformal => "VeryInformal"@,
        }
    }

    /// The name of the variant.
    pub fn as_name(&self) -> (r: &'static str)
        ensures
            r@ == self.name(),
    {
        match self {
            FormalityLevel::VeryFormal => "VeryFormal",
            FormalityLevel::Formal => "Formal",
            FormalityLevel::Neutral => "Neutral",
            FormalityLevel::Informal => "Informal",
            FormalityLevel::VeryInformal => "VeryInformal",
        }
    }
}

/// `text` where `cond` holds, else nothing.
pub open spec fn text_if(cond: bool, text: Seq<char>) -> Seq<char> {
    if cond {
        text
    } else {
        Seq::empty()
    }
}

/// The prompt that asks for a translation into `target` from `source` (or
/// from a detected language), in a context, with the formatting and style
/// preferences given.
pub open spec fn translation_prompt(
    source: Option<Seq<char>>,
    target: Seq<char>,
    context: TranslationContext,
    preserve_formatting: bool,
    maintain_style: bool,
) -> Seq<char> {
    "You are an expert translator from "@ + match source {
        Some(s) => s,
        None => "auto-detect"@,
    } + " to "@ + target + ".\n\nDomain: "@ + context.domain.name() + "\nAudience: "@
        + context.audience@ + "\nPurpose: "@ + context.purpose@ + "\nFormality: "@
        + context.formality_level.name() + "\n"@ + text_if(
        context.cultural_considerations,
        "Consider cultural nuances and local expressions.\n"@,
    ) + text_if(
        context.technical_terminology,
        "Use accurate technical terminology and maintain precision.\n"@,
    ) + "\nTranslation guidelines:\n"@ + "• Preserve the original meaning and tone\n"@
        + "• Adapt to cultural context when appropriate\n"@ + "• Use appropriate formality level\n"@
        + "• Maintain technical accuracy\n"@ + text_if(
        preserve_formatting,
        "• Preserve text formatting and structure\n"@,
    ) + text_if(maintain_style, "• Maintain the writing style and voice\n"@)
        + "\nTranslate the following text:"@
}

/// Builds the translation prompt.
pub fn build_translation_prompt(
    source_language: &Option<String>,
    target_language: &str,
    context: &TranslationContext,
    preserve_formatting: bool,
    maintain_style: bool,
) -> (r: String)
    ensures
        r@ == translation_prompt(
            match source_language {
                Some(s) => Some(s@),
                None => None,
            },
            target_language@,
            *context,
            preserve_formatting,
            maintain_style,
        ),
{
    proof {
        reveal_strlit("");
    }
    let mut p = String::from_str("You are an expert translator from ");
    match source_language {
        Some(s) => p.append(s.as_str()),
        None => p.append("auto-detect"),
    }
    p.append(" to ");
    p.append(target_language);
    p.append(".\n\nDomain: ");
    p.append(context.domain.as_name());
    p.append("\nAudience: ");
    p.append(context.audience.as_str());
    p.append("\nPurpose: ");
    p.append(context.purpose.as_str());
    p.append("\nFormality: ");
    p.append(context.formality_level.as_name());
    p.append("\n");
    if context.cultural_considerations {
        p.append("Consider cultural nuances and local expressions.\n");
    } else {
        p.append("");
    }
    if context.technical_terminology {
        p.append("Use accurate technical terminology and maintain precision.\n");
    } else {
        p.append("");
    }
    p.append("\nTranslation guidelines:\n");
    p.append("• Preserve the original meaning and tone\n");
    p.append("• Adapt to cultural context when appropriate\n");
    p.append("• Use appropriate formality level\n");
    p.append("• Maintain technical accuracy\n");
    if preserve_formatting {
        p.append("• Preserve text formatting and structure\n");
    } else {
        p.append("");
    }
    if maintain_style {
        p.append("• Maintain the writing style and voice\n");
    } else {
        p.append("");
    }
    p.append("\nTranslate the following text:");
    assert(p@ =~= translation_prompt(
        match source_language {
            Some(s) => Some(s@),
            None => None,
        },
        target_language@,
        *context,
        preserve_formatting,
        maintain_style,
    ));
    p
}

} // verus!
