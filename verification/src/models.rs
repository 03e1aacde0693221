//! Alarm data model: the persisted record, the mutation input, and the
//! trigger-policy mode.
//!
//! Times of day are carried as `"HH:MM"` strings exactly as the companion
//! protocol exchanges them; `next_trigger` is an epoch-millisecond timestamp
//! that is present exactly when the alarm is enabled and its trigger policy
//! resolved to a future occurrence.
//!
//! Every contract in this crate speaks of the mathematical views
//! [`AlarmModel`] and [`InputModel`], in which strings are character
//! sequences and lists are sequences, so that equality of views is equality
//! of values.

use vstd::prelude::*;

use vstd::string::StrSliceExecFns;

verus! {

/// How an alarm chooses its trigger time: one fixed time of day, or a
/// start/end window with a randomized offset chosen per occurrence.
#[derive(Debug, Clone, Copy, PartialEq, Eq, Structural)]
pub enum AlarmMode {
    Fixed,
    Window,
}

/// A persisted alarm row, stamped with the revision of its last mutation.
#[derive(Debug)]
pub struct AlarmRecord {
    pub id: i32,
    pub label: Option<String>,
    pub enabled: bool,
    pub mode: AlarmMode,
    pub fixed_time: Option<String>,
    pub window_start: Option<String>,
    pub window_end: Option<String>,
    pub active_days: Vec<i32>,
    pub next_trigger: Option<i64>,
    pub sound_uri: Option<String>,
    pub sound_title: Option<String>,
    pub revision: i64,
}

/// Input of a create-or-update request: an absent `id` creates a new alarm,
/// a present `id` mutates the existing row in place.
#[derive(Debug)]
pub struct AlarmInput {
    pub id: Option<i32>,
    pub label: Option<String>,
    pub enabled: bool,
    pub mode: AlarmMode,
    pub fixed_time: Option<String>,
    pub window_start: Option<String>,
    pub window_end: Option<String>,
    pub active_days: Vec<i32>,
    pub sound_uri: Option<String>,
    pub sound_title: Option<String>,
}

/// The mathematical value of an optional string.
pub open spec fn opt_str_view(s: Option<String>) -> Option<Seq<char>> {
    match s {
        Some(v) => Some(v@),
        None => None,
    }
}

/// The mathematical value of an [`AlarmRecord`].
#[verifier::ext_equal]
pub struct AlarmModel {
    pub id: i32,
    pub label: Option<Seq<char>>,
    pub enabled: bool,
    pub mode: AlarmMode,
    pub fixed_time: Option<Seq<char>>,
    pub window_start: Option<Seq<char>>,
    pub window_end: Option<Seq<char>>,
    pub active_days: Seq<i32>,
    pub next_trigger: Option<i64>,
    pub sound_uri: Option<Seq<char>>,
    pub sound_title: Option<Seq<char>>,
    pub revision: i64,
}

impl View for AlarmRecord {
    type V = AlarmModel;

    open spec fn view(&self) -> AlarmModel {
        AlarmModel {
            id: self.id,
            label: opt_str_view(self.label),
            enabled: self.enabled,
            mode: self.mode,
            fixed_time: opt_str_view(self.fixed_time),
            window_start: opt_str_view(self.window_start),
            window_end: opt_str_view(self.window_end),
            active_days: self.active_days@,
            next_trigger: self.next_trigger,
            sound_uri: opt_str_view(self.sound_uri),
            sound_title: opt_str_view(self.sound_title),
            revision: self.revision,
        }
    }
}

/// The mathematical value of an [`AlarmInput`].
#[verifier::ext_equal]
pub struct InputModel {
    pub id: Option<i32>,
    pub label: Option<Seq<char>>,
    pub enabled: bool,
    pub mode: AlarmMode,
    pub fixed_time: Option<Seq<char>>,
    pub window_start: Option<Seq<char>>,
    pub window_end: Option<Seq<char>>,
    pub active_days: Seq<i32>,
    pub sound_uri: Option<Seq<char>>,
    pub sound_title: Option<Seq<char>>,
}

impl View for AlarmInput {
    type V = InputModel;

    open spec fn view(&self) -> InputModel {
        InputModel {
            id: self.id,
            label: opt_str_view(self.label),
            enabled: self.enabled,
            mode: self.mode,
            fixed_time: opt_str_view(self.fixed_time),
            window_start: opt_str_view(self.window_start),
            window_end: opt_str_view(self.window_end),
            active_days: self.active_days@,
            sound_uri: opt_str_view(self.sound_uri),
            sound_title: opt_str_view(self.sound_title),
        }
    }
}

impl AlarmModel {
    /// The record that saving `input` stamps into the store: the input's
    /// configuration under the given id, trigger and revision.
    pub open spec fn of_input(
        input: InputModel,
        id: i32,
        next_trigger: Option<i64>,
        revision: i64,
    ) -> AlarmModel {
        AlarmModel {
            id,
            label: input.label,
            enabled: input.enabled,
            mode: input.mode,
            fixed_time: input.fixed_time,
            window_start: input.window_start,
            window_end: input.window_end,
            active_days: input.active_days,
            next_trigger,
            sound_uri: input.sound_uri,
            sound_title: input.sound_title,
            revision,
        }
    }
}

/// Character-for-character string equality.
pub(crate) fn str_eq(a: &str, b: &str) -> (r: bool)
    ensures
        r == (a@ == b@),
{
    let n = a.unicode_len();
    if n != b.unicode_len() {
        proof {
            assert(a@.len() != b@.len());
        }
        return false;
    }
    let mut i: usize = 0;
    while i < n
        invariant
            i <= n,
            n == a@.len(),
            n == b@.len(),
            forall|j: int| 0 <= j < i ==> a@[j] == b@[j],
        decreases n - i,
    {
        if a.get_char(i) != b.get_char(i) {
            return false;
        }
        i = i + 1;
    }
    proof {
        assert(a@ =~= b@);
    }
    true
}

/// Decode a stored trigger-policy mode. A corrupted value recovers to the
/// fixed mode rather than making the whole row unreadable.
pub fn decode_alarm_mode(s: &str) -> (r: AlarmMode)
    ensures
        s@ == "WINDOW"@ ==> r == AlarmMode::Window,
        s@ != "WINDOW"@ ==> r == AlarmMode::Fixed,
{
    if str_eq(s, "WINDOW") {
        AlarmMode::Window
    } else {
        AlarmMode::Fixed
    }
}

/// Render a trigger-policy mode for storage.
pub fn encode_alarm_mode(mode: AlarmMode) -> (r: &'static str)
    ensures
        mode == AlarmMode::Window ==> r@ == "WINDOW"@,
        mode == AlarmMode::Fixed ==> r@ == "FIXED"@,
{
    match mode {
        AlarmMode::Window => "WINDOW",
        AlarmMode::Fixed => "FIXED",
    }
}

/// Clone an optional label or time-of-day string, preserving its value.
pub(crate) fn clone_opt_string(s: &Option<String>) -> (r: Option<String>)
    ensures
        opt_str_view(r) == opt_str_view(*s),
{
    match s {
        Some(v) => Some(v.clone()),
        None => None,
    }
}

/// Clone a weekday list element for element.
pub(crate) fn clone_days(v: &Vec<i32>) -> (r: Vec<i32>)
    ensures
        r@ == v@,
{
    let mut r: Vec<i32> = Vec::new();
    let mut i: usize = 0;
    while i < v.len()
        invariant
            i <= v.len(),
            r@ == v@.take(i as int),
        decreases v.len() - i,
    {
        r.push(v[i]);
        i = i + 1;
        proof {
            assert(r@ =~= v@.take(i as int));
        }
    }
    proof {
        assert(v@.take(v@.len() as int) =~= v@);
    }
    r
}

impl Clone for AlarmRecord {
    fn clone(&self) -> (r: Self)
        ensures
            r@ == self@,
    {
        let r = AlarmRecord {
            id: self.id,
            label: clone_opt_string(&self.label),
            enabled: self.enabled,
            mode: self.mode,
            fixed_time: clone_opt_string(&self.fixed_time),
            window_start: clone_opt_string(&self.window_start),
            window_end: clone_opt_string(&self.window_end),
            active_days: clone_days(&self.active_days),
            next_trigger: self.next_trigger,
            sound_uri: clone_opt_string(&self.sound_uri),
            sound_title: clone_opt_string(&self.sound_title),
            revision: self.revision,
        };
        proof {
            assert(r@ =~= self@);
        }
        r
    }
}

impl Clone for AlarmInput {
    fn clone(&self) -> (r: Self)
        ensures
            r@ == self@,
    {
        let r = AlarmInput {
            id: self.id,
            label: clone_opt_string(&self.label),
            enabled: self.enabled,
            mode: self.mode,
            fixed_time: clone_opt_string(&self.fixed_time),
            window_start: clone_opt_string(&self.window_start),
            window_end: clone_opt_string(&self.window_end),
            active_days: clone_days(&self.active_days),
            sound_uri: clone_opt_string(&self.sound_uri),
            sound_title: clone_opt_string(&self.sound_title),
        };
        proof {
            assert(r@ =~= self@);
        }
        r
    }
}

impl AlarmRecord {
    /// The fields of this record that a mutation input carries, with the
    /// row's own id; saving this input unchanged re-runs the trigger policy
    /// over the same configuration.
    pub fn to_input(&self) -> (r: AlarmInput)
        ensures
            r@ == (InputModel {
                id: Some(self.id),
                label: self@.label,
                enabled: self.enabled,
                mode: self.mode,
                fixed_time: self@.fixed_time,
                window_start: self@.window_start,
                window_end: self@.window_end,
                active_days: self@.active_days,
                sound_uri: self@.sound_uri,
                sound_title: self@.sound_title,
            }),
    {
        let r = AlarmInput {
            id: Some(self.id),
            label: clone_opt_string(&self.label),
            enabled: self.enabled,
            mode: self.mode,
            fixed_time: clone_opt_string(&self.fixed_time),
            window_start: clone_opt_string(&self.window_start),
            window_end: clone_opt_string(&self.window_end),
            active_days: clone_days(&self.active_days),
            sound_uri: clone_opt_string(&self.sound_uri),
            sound_title: clone_opt_string(&self.sound_title),
        };
        proof {
            assert(r@ =~= (InputModel {
                id: Some(self.id),
                label: self@.label,
                enabled: self.enabled,
                mode: self.mode,
                fixed_time: self@.fixed_time,
                window_start: self@.window_start,
                window_end: self@.window_end,
                active_days: self@.active_days,
                sound_uri: self@.sound_uri,
                sound_title: self@.sound_title,
            }));
        }
        r
    }
}

impl Default for AlarmInput {
    /// A weekday alarm at seven in the morning, enabled, with the default
    /// sound.
    fn default() -> (r: Self)
        ensures
            r.id is None,
            r.label is None,
            r.enabled,
            r.mode == AlarmMode::Fixed,
            r.fixed_time matches Some(t) && t@ == "07:00"@,
            r.window_start is None,
            r.window_end is None,
            r.active_days@ == seq![1i32, 2i32, 3i32, 4i32, 5i32],
            r.sound_uri is None,
            r.sound_title is None,
    {
        let mut days: Vec<i32> = Vec::new();
        days.push(1);
        days.push(2);
        days.push(3);
        days.push(4);
        days.push(5);
        proof {
            assert(days@ =~= seq![1i32, 2i32, 3i32, 4i32, 5i32]);
        }
        AlarmInput {
            id: None,
            label: None,
            enabled: true,
            mode: AlarmMode::Fixed,
            fixed_time: Some("07:00".to_owned()),
            window_start: None,
            window_end: None,
            active_days: days,
            sound_uri: None,
            sound_title: None,
        }
    }
}

} // verus!
