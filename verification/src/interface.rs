//! Public handle types, item kinds, and the host-facing data-source trait.

use vstd::prelude::*;

verus! {

/// Reference to a horizontal bar.  Opaque: only equality is meaningful.
pub type BarId = u64;

/// Reference to an item that can be added to a bar.
pub type ItemId = u64;

/// Reference to an allocated image object.  An image is consumed (released)
/// when it is assigned to an item.
pub type TouchbarImage = u64;

/// Reference to an allocated identity string object.
pub type Ident = u64;

/// Token under which the host layer has registered an application callback.
/// The dispatcher resolves events to `(ItemId, CallbackToken)` pairs; the
/// host invokes the actual closure.
pub type CallbackToken = u64;

/// Token under which the host layer holds a scrubber's shared data source.
/// Several scrubbers may share one token.
pub type ScrubberDataRef = u64;

/// The kind of a registered item.
#[derive(Clone, Copy, Debug, PartialEq, Eq, Structural)]
pub enum ItemKind {
    Button,
    Label,
    Slider,
    Scrubber,
    Popover,
    Spacer,
}

/// Phase of a swipe gesture, as reported by the native gesture recognizer.
#[derive(Clone, Copy, Debug, PartialEq, Eq, Structural)]
pub enum SwipeState {
    Unknown,
    Began,
    Changed,
    Ended,
    Cancelled,
    Failed,
}

/// The swipe phase denoted by a raw native gesture state.
pub open spec fn spec_swipe_state(raw: u32) -> SwipeState {
    if raw == 1 {
        SwipeState::Began
    } else if raw == 2 {
        SwipeState::Changed
    } else if raw == 3 {
        SwipeState::Ended
    } else if raw == 4 {
        SwipeState::Cancelled
    } else if raw == 5 {
        SwipeState::Failed
    } else {
        SwipeState::Unknown
    }
}

impl SwipeState {
    /// Maps a raw native gesture state to a swipe phase.
    pub fn from_raw(raw: u32) -> (s: SwipeState)
        ensures
            s == spec_swipe_state(raw),
    {
        if raw == 1 {
            SwipeState::Began
        } else if raw == 2 {
            SwipeState::Changed
        } else if raw == 3 {
            SwipeState::Ended
        } else if raw == 4 {
            SwipeState::Cancelled
        } else if raw == 5 {
            SwipeState::Failed
        } else {
            SwipeState::Unknown
        }
    }
}

/// Identifiers for the standard button image templates.
#[derive(Clone, Copy, Debug, PartialEq, Eq, Structural)]
pub enum ImageTemplate {
    AlarmTemplate,
    RewindTemplate,
    FastForwardTemplate,
    PlayTemplate,
    PauseTemplate,
    PlayPauseTemplate,
    ListViewTemplate,
    AudioOutputVolumeMediumTemplate,
    GoUpTemplate,
}

/// The native name of an image template.
pub open spec fn spec_template_name(t: ImageTemplate) -> Seq<char> {
    match t {
        ImageTemplate::AlarmTemplate => "NSTouchBarAlarmTemplate"@,
        ImageTemplate::RewindTemplate => "NSTouchBarRewindTemplate"@,
        ImageTemplate::FastForwardTemplate => "NSTouchBarFastForwardTemplate"@,
        ImageTemplate::PlayTemplate => "NSTouchBarPlayTemplate"@,
        ImageTemplate::PauseTemplate => "NSTouchBarPauseTemplate"@,
        ImageTemplate::PlayPauseTemplate => "NSTouchBarPlayPauseTemplate"@,
        ImageTemplate::ListViewTemplate => "NSTouchBarListViewTemplate"@,
        ImageTemplate::AudioOutputVolumeMediumTemplate => "NSTouchBarAudioOutputVolumeMediumTemplate"@,
        ImageTemplate::GoUpTemplate => "NSTouchBarGoUpTemplate"@,
    }
}

impl ImageTemplate {
    /// The native name of this template.
    pub fn template_name(&self) -> (r: String)
        ensures
            r@ == spec_template_name(*self),
    {
        match self {
            ImageTemplate::AlarmTemplate => String::from_str("NSTouchBarAlarmTemplate"),
            ImageTemplate::RewindTemplate => String::from_str("NSTouchBarRewindTemplate"),
            ImageTemplate::FastForwardTemplate => String::from_str("NSTouchBarFastForwardTemplate"),
            ImageTemplate::PlayTemplate => String::from_str("NSTouchBarPlayTemplate"),
            ImageTemplate::PauseTemplate => String::from_str("NSTouchBarPauseTemplate"),
            ImageTemplate::PlayPauseTemplate => String::from_str("NSTouchBarPlayPauseTemplate"),
            ImageTemplate::ListViewTemplate => String::from_str("NSTouchBarListViewTemplate"),
            ImageTemplate::AudioOutputVolumeMediumTemplate => String::from_str(
                "NSTouchBarAudioOutputVolumeMediumTemplate",
            ),
            ImageTemplate::GoUpTemplate => String::from_str("NSTouchBarGoUpTemplate"),
        }
    }
}

/// Identifiers for the type of spacing available between items.
#[derive(Clone, Copy, Debug, PartialEq, Eq, Structural)]
pub enum SpacerType {
    /// Small fixed space.
    Small,
    /// Large fixed space.
    Large,
    /// Flexible space that grows and shrinks.
    Flexible,
}

/// The native identity string used for a spacer of the given type.
pub open spec fn spec_spacer_ident(t: SpacerType) -> Seq<char> {
    match t {
        SpacerType::Small => "NSTouchBarItemIdentifierFixedSpaceSmall"@,
        SpacerType::Large => "NSTouchBarItemIdentifierFixedSpaceLarge"@,
        SpacerType::Flexible => "NSTouchBarItemIdentifierFlexibleSpace"@,
    }
}

impl SpacerType {
    /// The native identity string for this spacer type.
    pub fn ident_text(&self) -> (r: String)
        ensures
            r@ == spec_spacer_ident(*self),
    {
        match self {
            SpacerType::Small => String::from_str("NSTouchBarItemIdentifierFixedSpaceSmall"),
            SpacerType::Large => String::from_str("NSTouchBarItemIdentifierFixedSpaceLarge"),
            SpacerType::Flexible => String::from_str("NSTouchBarItemIdentifierFlexibleSpace"),
        }
    }
}

/// The callback API for managing data in a scrubber.  The host application
/// implements this trait; the dispatcher resolves scrubber events to the
/// item and data-source token through which the host reaches its
/// implementation.
pub trait TScrubberData {
    /// Returns the number of entries in the scrubber.
    fn count(&self, item: ItemId) -> u32;

    /// Returns the text of the given index in the scrubber.
    fn text(&self, item: ItemId, idx: u32) -> String;

    /// Returns the width (in pixels) of the given index in the scrubber.
    fn width(&self, item: ItemId, idx: u32) -> u32;

    /// Called when the given index in the scrubber is selected.
    fn touch(&self, item: ItemId, idx: u32);
}

} // verus!
