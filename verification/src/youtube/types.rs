//! Shared renderer types of the chat responses: localized message runs,
//! emoji, images and accessibility labels, and the wall-clock timestamp
//! carried by every message renderer.

use vstd::prelude::*;

verus! {

/// A wall-clock timestamp: whole seconds since the Unix epoch and the
/// nanoseconds within that second, so no sub-millisecond precision is
/// lost.
#[derive(Debug, Clone, Copy, PartialEq, Eq, Structural)]
pub struct Timestamp {
    pub seconds: i64,
    pub subsec_nanos: u32,
}

impl Timestamp {
    /// Convert microseconds since the epoch, flooring the seconds toward
    /// minus infinity so the nanosecond part is never negative.
    pub fn from_micros(micros: i64) -> (r: Timestamp)
        ensures
            r.seconds == micros as int / 1_000_000,
            r.subsec_nanos == (micros as int % 1_000_000) * 1000,
    {
        if micros >= 0 {
            let m = micros as u64;
            Timestamp { seconds: (m / 1_000_000) as i64, subsec_nanos: ((m % 1_000_000) * 1000) as u32 }
        } else if micros == i64::MIN {
            proof {
                assert(i64::MIN as int / 1_000_000 == -9_223_372_036_855int);
                assert(i64::MIN as int % 1_000_000 == 224_192int);
            }
            Timestamp { seconds: -9_223_372_036_855i64, subsec_nanos: 224_192_000u32 }
        } else {
            let p = (-micros) as u64;
            let d = p / 1_000_000;
            let r = p % 1_000_000;
            proof {
                assert(micros as int == -(p as int));
                assert(p as int == 1_000_000 * (p as int / 1_000_000) + p as int % 1_000_000);
            }
            if r == 0 {
                proof {
                    assert(micros as int / 1_000_000 == -(d as int));
                    assert(micros as int % 1_000_000 == 0);
                }
                Timestamp { seconds: -(d as i64), subsec_nanos: 0 }
            } else {
                proof {
                    assert(micros as int / 1_000_000 == -(d as int) - 1);
                    assert(micros as int % 1_000_000 == 1_000_000 - r);
                }
                Timestamp { seconds: -((d + 1) as i64), subsec_nanos: ((1_000_000 - r) * 1000) as u32 }
            }
        }
    }
}

/// Opaque command metadata, carried through as its raw text.
#[derive(Debug, Clone)]
pub struct CommandMetadata {
    pub web_command_metadata: String,
}

/// A plain text with an optional accessibility label.
#[derive(Debug, Clone)]
pub struct UnlocalizedText {
    pub simple_text: String,
    pub accessibility: Option<Accessibility>,
}

/// An accessibility wrapper around a label.
#[derive(Debug, Clone)]
pub struct Accessibility {
    pub accessibility_data: AccessibilityData,
}

/// An accessibility label.
#[derive(Debug, Clone)]
pub struct AccessibilityData {
    pub label: String,
}

/// One image variant of a thumbnail set.
#[derive(Debug, Clone)]
pub struct Thumbnail {
    pub url: String,
    pub width: Option<usize>,
    pub height: Option<usize>,
}

/// A set of thumbnails with an optional accessibility label.
#[derive(Debug, Clone)]
pub struct ImageContainer {
    pub thumbnails: Vec<Thumbnail>,
    pub accessibility: Option<Accessibility>,
}

/// An emoji reference inside a message body.
#[derive(Debug, Clone)]
pub struct Emoji {
    pub emoji_id: String,
    pub shortcuts: Option<Vec<String>>,
    pub search_terms: Option<Vec<String>>,
    pub supports_skin_tone: Option<bool>,
    pub image: ImageContainer,
    pub is_custom_emoji: Option<bool>,
}

/// A named icon.
#[derive(Debug, Clone)]
pub struct Icon {
    pub icon_type: String,
}

/// One run of a message body: literal text or an emoji reference.
#[derive(Debug, Clone)]
pub enum LocalizedRun {
    Text { text: String },
    Emoji { emoji: Emoji, variant_ids: Option<Vec<String>> },
}

/// The canonical flattening of one run: the raw text for a text run, the
/// accessibility label for a standard emoji, and the label wrapped in
/// colons for a custom emoji.
pub open spec fn spec_chat_string(run: LocalizedRun) -> Seq<char> {
    match run {
        LocalizedRun::Text { text } => text@,
        LocalizedRun::Emoji { emoji, .. } => {
            let label = emoji.image.accessibility->0.accessibility_data.label@;
            if emoji.is_custom_emoji == Some(true) {
                ":"@ + label + ":"@
            } else {
                label
            }
        },
    }
}

impl LocalizedRun {
    /// Flatten one run to its canonical chat text. An emoji run must
    /// carry an accessibility label.
    pub fn to_chat_string(&self) -> (r: String)
        requires
            self matches LocalizedRun::Emoji { emoji, .. } ==> emoji.image.accessibility
                is Some,
        ensures
            r@ == spec_chat_string(*self),
    {
        match self {
            LocalizedRun::Text { text } => text.clone(),
            LocalizedRun::Emoji { emoji, .. } => {
                let label = &emoji.image.accessibility.as_ref().unwrap().accessibility_data.label;
                let custom = match emoji.is_custom_emoji {
                    Some(true) => true,
                    _ => false,
                };
                if custom {
                    let mut r = ":".to_owned();
                    r.append(label.as_str());
                    r.append(":");
                    r
                } else {
                    label.clone()
                }
            },
        }
    }
}

/// A message body as an ordered sequence of runs.
#[derive(Debug, Clone)]
pub struct LocalizedText {
    pub runs: Vec<LocalizedRun>,
}

} // verus!
