//! Voice synthesis catalogue: styles, emotions, audio formats and the
//! available voice models.
use vstd::prelude::*;

verus! {

/// Voice styles.
#[derive(Debug, Clone, Copy, PartialEq, Eq, Structural)]
pub enum VoiceStyle {
    Neutral,
    Conversational,
    Narrator,
    Assistant,
    NewsAnchor,
    Educational,
    Creative,
    Professional,
}

/// Voice emotions.
#[derive(Debug, Clone, Copy, PartialEq, Eq, Structural)]
pub enum VoiceEmotion {
    Neutral,
    Happy,
    Sad,
    Angry,
    Excited,
    Calm,
    Empathetic,
    Confident,
    Surprised,
    Concerned,
}

/// Audio formats.
#[derive(Debug, Clone, Copy, PartialEq, Eq, Structural)]
pub enum AudioFormat {
    MP3,
    WAV,
    OGG,
    FLAC,
    AAC,
    M4A,
}

/// Audio quality levels.
#[derive(Debug, Clone, Copy, PartialEq, Eq, Structural)]
pub enum AudioQuality {
    Low,
    Medium,
    High,
    Ultra,
}

/// Audio output settings.
#[derive(Debug, Clone, Copy)]
pub struct AudioSettings {
    pub output_format: AudioFormat,
    pub sample_rate: u32,
    pub bitrate: u16,
    pub channels: u8,
    pub quality_level: AudioQuality,
}

/// An available voice model.
#[derive(Debug, Clone)]
pub struct VoiceModel {
    pub id: String,
    pub name: String,
    pub language: String,
    pub gender: String,
    pub accent: String,
    pub neural: bool,
    pub quality: AudioQuality,
    pub emotion_support: bool,
    pub realtime: bool,
}

impl VoiceStyle {
    /// The markup name of the style.
    pub open spec fn markup_name(&self) -> Seq<char> {
        match self {
            VoiceStyle::Neutral => "neutral"@,
            VoiceStyle::Conversational => "conversational"@,
            VoiceStyle::Narrator => "narrator"@,
            VoiceStyle::Assistant => "assistant"@,
            VoiceStyle::NewsAnchor => "news"@,
            VoiceStyle::Educational => "educational"@,
            VoiceStyle::Creative => "creative"@,
            VoiceStyle::Professional => "professional"@,
        }
    }

    /// The markup name of the style.
    pub fn as_ref(&self) -> (r: &'static str)
        ensures
            r@ == self.markup_name(),
    {
        match self {
            VoiceStyle::Neutral => "neutral",
            VoiceStyle::Conversational => "conversational",
            VoiceStyle::Narrator => "narrator",
            VoiceStyle::Assistant => "assistant",
            VoiceStyle::NewsAnchor => "news",
            VoiceStyle::Educational => "educational",
            VoiceStyle::Creative => "creative",
            VoiceStyle::Professional => "professional",
        }
    }
}

impl VoiceEmotion {
    /// The markup name of the emotion.
    pub open spec fn markup_name(&self) -> Seq<char> {
        match self {
            VoiceEmotion::Neutral => "neutral"@,
            VoiceEmotion::Happy => "happy"@,
            VoiceEmotion::Sad => "sad"@,
            VoiceEmotion::Angry => "angry"@,
            VoiceEmotion::Excited => "excited"@,
            VoiceEmotion::Calm => "calm"@,
            VoiceEmotion::Empathetic => "empathetic"@,
            VoiceEmotion::Confident => "confident"@,
            VoiceEmotion::Surprised => "surprised"@,
            VoiceEmotion::Concerned => "concerned"@,
        }
    }

    /// The markup name of the emotion.
    pub fn as_ref(&self) -> (r: &'static str)
        ensures
            r@ == self.markup_name(),
    {
        match self {
            VoiceEmotion::Neutral => "neutral",
            VoiceEmotion::Happy => "happy",
            VoiceEmotion::Sad => "sad",
            VoiceEmotion::Angry => "angry",
            VoiceEmotion::Excited => "excited",
            VoiceEmotion::Calm => "calm",
            VoiceEmotion::Empathetic => "empathetic",
            VoiceEmotion::Confident => "confident",
            VoiceEmotion::Surprised => "surprised",
            VoiceEmotion::Concerned => "concerned",
        }
    }
}

impl AudioFormat {
    /// The file extension of the format.
    pub open spec fn extension(&self) -> Seq<char> {
        match self {
            AudioFormat::MP3 => "mp3"@,
            AudioFormat::WAV => "wav"@,
            AudioFormat::OGG => "ogg"@,
            AudioFormat::FLAC => "flac"@,
            AudioFormat::AAC => "aac"@,
            AudioFormat::M4A => "m4a"@,
        }
    }
}

/// The file extension of an audio format.
pub fn get_format_string(format: &AudioFormat) -> (r: String)
    ensures
        r@ == format.extension(),
{
    String::from_str(
        match format {
            AudioFormat::MP3 => "mp3",
            AudioFormat::WAV => "wav",
            AudioFormat::OGG => "ogg",
            AudioFormat::FLAC => "flac",
            AudioFormat::AAC => "aac",
            AudioFormat::M4A => "m4a",
        },
    )
}

/// The available voices as (id, name, gender, accent); all are English,
/// neural, of high quality, with emotion support and real time.
pub open spec fn voice_table() -> Seq<(Seq<char>, Seq<char>, Seq<char>, Seq<char>)> {
    seq![
        ("alloy"@, "Alloy"@, "neutral"@, "american"@),
        ("echo"@, "Echo"@, "male"@, "american"@),
        ("fable"@, "Fable"@, "british"@, "british"@),
        ("onyx"@, "Onyx"@, "male"@, "american"@),
        ("nova"@, "Nova"@, "female"@, "american"@),
        ("shimmer"@, "Shimmer"@, "female"@, "american"@),
    ]
}

/// `m` is the voice of row `row` of the voice table.
pub open spec fn voice_is(m: VoiceModel, row: (Seq<char>, Seq<char>, Seq<char>, Seq<char>)) -> bool {
    &&& m.id@ == row.0
    &&& m.name@ == row.1
    &&& m.language@ == "en"@
    &&& m.gender@ == row.2
    &&& m.accent@ == row.3
    &&& m.neural
    &&& m.quality == AudioQuality::High
    &&& m.emotion_support
    &&& m.realtime
}

fn voice(id: &str, name: &str, gender: &str, accent: &str) -> (r: VoiceModel)
    ensures
        voice_is(r, (id@, name@, gender@, accent@)),
{
    VoiceModel {
        id: String::from_str(id),
        name: String::from_str(name),
        language: String::from_str("en"),
        gender: String::from_str(gender),
        accent: String::from_str(accent),
        neural: true,
        quality: AudioQuality::High,
        emotion_support: true,
        realtime: true,
    }
}

/// The available voice models.
pub fn get_available_voices() -> (r: Vec<VoiceModel>)
    ensures
        r@.len() == voice_table().len(),
        forall|i: int| 0 <= i < r@.len() ==> voice_is(#[trigger] r@[i], voice_table()[i]),
{
    let mut v: Vec<VoiceModel> = Vec::new();
    v.push(voice("alloy", "Alloy", "neutral", "american"));
    v.push(voice("echo", "Echo", "male", "american"));
    v.push(voice("fable", "Fable", "british", "british"));
    v.push(voice("onyx", "Onyx", "male", "american"));
    v.push(voice("nova", "Nova", "female", "american"));
    v.push(voice("shimmer", "Shimmer", "female", "american"));
    v
}

} // verus!
