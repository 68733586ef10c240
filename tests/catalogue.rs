use voiceflow_core::error_boundary::ErrorBoundaryRegistry;
use voiceflow_core::errors::ErrorReporter;
use voiceflow_core::enhancement::{
    build_enhancement_instructions, EnhancementContext, EnhancementOptions, EnhancementRequest,
};
use voiceflow_core::languages::{get_supported_languages, is_language_supported};
use voiceflow_core::translation::{
    apply_format, build_translation_prompt, extract_cultural_adaptations, FormalityLevel, OutputFormat, TranslationContext,
    TranslationDomain,
};
use voiceflow_core::voice::{
    get_available_voices, get_format_string, AudioFormat, AudioQuality, VoiceEmotion, VoiceStyle,
};

#[test]
fn supported_languages_table() {
    let langs = get_supported_languages();
    assert_eq!(langs.len(), 20);
    assert_eq!(langs[0].code, "en-US");
    assert_eq!(langs[2].native_name, "Español (España)");
    assert_eq!(langs[19].code, "da-DK");
    assert!(is_language_supported("ja-JP"));
    assert!(is_language_supported("no-NO"));
    assert!(!is_language_supported("en"));
    assert!(!is_language_supported("xx-XX"));
}

#[test]
fn voice_names_and_formats() {
    assert_eq!(VoiceStyle::NewsAnchor.as_ref(), "news");
    assert_eq!(VoiceStyle::Professional.as_ref(), "professional");
    assert_eq!(VoiceEmotion::Surprised.as_ref(), "surprised");
    assert_eq!(VoiceEmotion::Neutral.as_ref(), "neutral");
    assert_eq!(get_format_string(&AudioFormat::FLAC), "flac");
    assert_eq!(get_format_string(&AudioFormat::M4A), "m4a");
    let voices = get_available_voices();
    assert_eq!(voices.len(), 6);
    assert_eq!(voices[2].id, "fable");
    assert_eq!(voices[2].gender, "british");
    assert_eq!(voices[4].gender, "female");
    assert!(voices.iter().all(|v| v.quality == AudioQuality::High && v.language == "en"));
}

fn request(options: EnhancementOptions, constraints: Vec<String>) -> EnhancementRequest {
    EnhancementRequest {
        id: "r1".to_string(),
        text: "some text".to_string(),
        context: EnhancementContext {
            domain: "mail".to_string(),
            audience: "team".to_string(),
            purpose: "update".to_string(),
            format: "plain".to_string(),
            constraints,
            examples: vec![],
        },
        tone: "friendly".to_string(),
        options,
    }
}

#[test]
fn enhancement_instructions() {
    let none = EnhancementOptions {
        improve_clarity: false,
        fix_grammar: false,
        enhance_style: false,
        adjust_tone: false,
        remove_redundancy: false,
        improve_readability: false,
        preserve_meaning: false,
        maintain_length: true,
    };
    assert_eq!(build_enhancement_instructions(&request(none, vec![])), "");
    let some = EnhancementOptions { fix_grammar: true, adjust_tone: true, preserve_meaning: true, ..none };
    assert_eq!(
        build_enhancement_instructions(&request(some, vec!["short".to_string(), "no jargon".to_string()])),
        "• Fix grammar, punctuation, and spelling errors\n• Adjust tone to be more friendly\n• Preserve the original meaning and intent\n• Respect these constraints: short, no jargon"
    );
}

#[test]
fn translation_formats_and_adaptations() {
    assert_eq!(apply_format("Hola", OutputFormat::PlainText), Some("Hola".to_string()));
    assert_eq!(apply_format("Hola", OutputFormat::Markdown), Some("# Translated Content\n\nHola".to_string()));
    assert_eq!(
        apply_format("Hola", OutputFormat::HTML),
        Some("<div class=\"translated-content\">Hola</div>".to_string())
    );
    assert_eq!(apply_format("Hola", OutputFormat::SSML), Some("<speak>Hola</speak>".to_string()));
    assert_eq!(apply_format("Hola", OutputFormat::JSON), None);
    let ctx = TranslationContext {
        domain: TranslationDomain::General,
        audience: "all".to_string(),
        purpose: "chat".to_string(),
        formality_level: FormalityLevel::Neutral,
        cultural_considerations: true,
        technical_terminology: false,
    };
    let a = extract_cultural_adaptations(&ctx, "es");
    assert_eq!(a.len(), 1);
    assert_eq!(a[0].adapted_term, "Cultural greeting");
    assert!(extract_cultural_adaptations(&ctx, "en").is_empty());
}

#[test]
fn translation_prompt_text() {
    let ctx = TranslationContext {
        domain: TranslationDomain::Software,
        audience: "developers".to_string(),
        purpose: "docs".to_string(),
        formality_level: FormalityLevel::VeryFormal,
        cultural_considerations: false,
        technical_terminology: true,
    };
    let p = build_translation_prompt(&None, "de", &ctx, true, false);
    assert_eq!(
        p,
        "You are an expert translator from auto-detect to de.\n\nDomain: Software\nAudience: developers\nPurpose: docs\nFormality: VeryFormal\nUse accurate technical terminology and maintain precision.\n\nTranslation guidelines:\n• Preserve the original meaning and tone\n• Adapt to cultural context when appropriate\n• Use appropriate formality level\n• Maintain technical accuracy\n• Preserve text formatting and structure\n\nTranslate the following text:"
    );
    let q = build_translation_prompt(&Some("en".to_string()), "fr", &ctx, false, true);
    assert!(q.starts_with("You are an expert translator from en to fr."));
    assert!(q.contains("• Maintain the writing style and voice\n"));
    assert!(!q.contains("• Preserve text formatting"));
}

#[test]
fn defaults_are_empty() {
    let r = ErrorBoundaryRegistry::default();
    assert!(r.get_all_stats(0).is_empty());
    let e = ErrorReporter::default();
    assert_eq!(e.get_error_count(), 0);
}
