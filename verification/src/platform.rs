//! Plain data types of the platform bridges: the native alarm scheduler,
//! the back-gesture, theming, time-format and toast facilities.
//!
//! The bridges themselves are the application's outside work; these types
//! are the values that cross them, and the scheduler-facing ones are what
//! the coordinator's scheduled and cancelled events turn into.

use vstd::prelude::*;

use std::collections::HashMap;

verus! {

/// Register one alarm with the native scheduler; repeated scheduling of the
/// same id replaces the prior registration.
#[derive(Debug, Clone)]
pub struct ScheduleRequest {
    pub id: i32,
    pub trigger_at: i64,
    pub sound_uri: Option<String>,
}

/// Cancel one alarm with the native scheduler; cancelling an unknown id is
/// a no-op.
#[derive(Debug, Clone, Copy, PartialEq, Eq, Structural)]
pub struct CancelRequest {
    pub id: i32,
}

/// An alarm imported from the platform's stock clock at first launch.
#[derive(Debug, Clone)]
pub struct ImportedAlarm {
    pub id: i32,
    pub hour: i32,
    pub minute: i32,
    pub label: String,
}

/// Options of the platform's alarm-sound picker.
#[derive(Debug, Clone)]
pub struct PickAlarmSoundOptions {
    pub existing_uri: Option<String>,
    pub title: Option<String>,
    pub show_silent: Option<bool>,
    pub show_default: Option<bool>,
}

/// The sound the user picked.
#[derive(Debug, Clone)]
pub struct PickedAlarmSound {
    pub uri: Option<String>,
    pub is_silent: bool,
    pub title: Option<String>,
}

/// Payload of a ringing notification.
#[derive(Debug, Clone, Copy, PartialEq, Eq, Structural)]
pub struct RingEventPayload {
    pub id: i32,
}

/// Whether an alarm is ringing right now, and which.
#[derive(Debug, Clone, Copy, PartialEq, Eq, Structural)]
pub struct ActiveAlarmResponse {
    pub is_alarm: bool,
    pub alarm_id: Option<i32>,
}

/// Enable or disable the platform's predictive back gesture.
#[derive(Debug, Clone, Copy, PartialEq, Eq, Structural)]
pub struct SetCanGoBackRequest {
    pub can_go_back: bool,
}

/// The platform's dynamic colour palettes, when supported.
#[derive(Debug, Clone)]
pub struct MaterialYouResponse {
    pub supported: bool,
    pub api_level: i32,
    pub palettes: Palettes,
}

/// Tonal palettes of the platform theme, keyed by tone.
#[derive(Debug, Clone)]
pub struct Palettes {
    pub system_accent1: Option<HashMap<String, String>>,
    pub system_accent2: Option<HashMap<String, String>>,
    pub system_accent3: Option<HashMap<String, String>>,
    pub system_neutral1: Option<HashMap<String, String>>,
    pub system_neutral2: Option<HashMap<String, String>>,
}

/// The user's preferred clock format.
#[derive(Debug, Clone, Copy, PartialEq, Eq, Structural)]
pub struct TimeFormatResponse {
    pub is24_hour: bool,
}

/// How long a toast stays on screen.
#[derive(Debug, Clone, Copy, PartialEq, Eq, Structural)]
pub enum ToastDuration {
    Short,
    Long,
}

impl Default for ToastDuration {
    /// Toasts are short unless asked otherwise.
    fn default() -> (r: Self)
        ensures
            r == ToastDuration::Short,
    {
        ToastDuration::Short
    }
}

/// Where a toast appears.
#[derive(Debug, Clone, Copy, PartialEq, Eq, Structural)]
pub enum ToastPosition {
    Top,
    Centre,
    Bottom,
}

impl Default for ToastPosition {
    /// Toasts sit at the bottom unless asked otherwise.
    fn default() -> (r: Self)
        ensures
            r == ToastPosition::Bottom,
    {
        ToastPosition::Bottom
    }
}

/// Show a toast message.
#[derive(Debug, Clone)]
pub struct ShowToastRequest {
    pub message: String,
    pub duration: ToastDuration,
    pub position: ToastPosition,
}

/// Turn a scheduled event into the native scheduler's request.
pub fn schedule_request_of(event: &crate::events::AlarmScheduled) -> (r: ScheduleRequest)
    ensures
        r.id == event.id,
        r.trigger_at == event.trigger_at,
        crate::models::opt_str_view(r.sound_uri) == crate::models::opt_str_view(event.sound_uri),
{
    ScheduleRequest {
        id: event.id,
        trigger_at: event.trigger_at,
        sound_uri: crate::models::clone_opt_string(&event.sound_uri),
    }
}

/// Turn a cancelled event into the native scheduler's request.
pub fn cancel_request_of(event: &crate::events::AlarmCancelled) -> (r: CancelRequest)
    ensures
        r.id == event.id,
{
    CancelRequest { id: event.id }
}

} // verus!
