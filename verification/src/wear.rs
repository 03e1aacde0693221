//! Companion-facing models and decisions: inbound message routing, the
//! publish command abstraction, and the supersede rule that lets an
//! immediate sync cancel a pending partial batch.
//!
//! Inbound companion messages arrive as a path plus a payload string. The
//! router classifies the path exactly; the revision of a sync request is a
//! decimal integer parsed with an exact grammar, malformed input counting
//! as revision zero. The payloads of save and delete commands are JSON
//! whose decoding is the transport edge's work; the decoded commands are
//! the plain structs here.

use vstd::prelude::*;

use crate::batch::{spec_flush, BatchCollector};
use crate::scheduler::{digit_val, is_digit};
use crate::events::{AlarmsSyncNeeded, SyncReason};
use crate::models::{str_eq, AlarmRecord};
use crate::store::alarm_views;

verus! {

/// The debounce delay of the outbound batch collector, in milliseconds.
pub const BATCH_DEBOUNCE_MS: u64 = 500;

/// A bridge request: the serialized payload pushed to the companion,
/// stamped with the revision it represents.
#[derive(Debug, Clone)]
pub struct PublishRequest {
    pub alarms_json: String,
    pub revision: i64,
}

/// A bridge request asking the companion to sync from `revision`.
#[derive(Debug, Clone, Copy, PartialEq, Eq, Structural)]
pub struct SyncRequest {
    pub revision: i64,
}

/// A raw companion message: the routing path and the payload string.
#[derive(Debug, Clone)]
pub struct WatchMessage {
    pub path: String,
    pub data: String,
}

/// A companion-originated save (toggle) command.
#[derive(Debug, Clone, Copy, PartialEq, Eq, Structural)]
pub struct WatchSaveAlarm {
    pub alarm_id: i32,
    pub enabled: bool,
    pub watch_revision: i64,
}

/// A companion-originated delete command.
#[derive(Debug, Clone, Copy, PartialEq, Eq, Structural)]
pub struct WatchDeleteAlarm {
    pub alarm_id: i32,
    pub watch_revision: i64,
}

/// A companion-originated sync request.
#[derive(Debug, Clone, Copy, PartialEq, Eq, Structural)]
pub struct WatchSyncRequest {
    pub watch_revision: i64,
}

/// The output gateway that performs the outbound companion calls; the
/// application implements it over its transport. Publishing is
/// fire-and-forget: nothing is promised of it, and a failure never rolls a
/// committed mutation back.
pub trait WearSyncPublisher {
    fn publish_batch(&self, ids: Vec<i32>, revision: i64);

    fn publish_immediate(&self, reason: &SyncReason, revision: i64);
}

/// A command for the background publish consumer, which receives commands
/// in arrival order and performs the actual outbound call.
#[derive(Debug)]
pub enum PublishCommand {
    /// Publish a batch of changed alarm ids at the given revision.
    Batch { ids: Vec<i32>, revision: i64 },
    /// Publish an immediate full sync for the given reason, carrying the
    /// complete alarm snapshot.
    Immediate { reason: SyncReason, revision: i64, snapshot: Vec<AlarmRecord> },
}

/// Decide the publish for an explicit sync-needed trigger: any pending
/// partial batch is flushed and suppressed — the immediate sync carries
/// complete data, so the partial batch would be redundant — and the
/// immediate command is issued with the snapshot.
pub fn handle_sync_needed(
    collector: &mut BatchCollector,
    event: &AlarmsSyncNeeded,
    snapshot: Vec<AlarmRecord>,
) -> (r: PublishCommand)
    requires
        old(collector)@.wf(),
    ensures
        final(collector)@.wf(),
        final(collector)@ == spec_flush(old(collector)@).0,
        r matches PublishCommand::Immediate { reason, revision, snapshot: snap } && reason
            == event.reason && revision == event.revision && alarm_views(snap@) == alarm_views(
            snapshot@,
        ),
{
    let _ = collector.flush();
    PublishCommand::Immediate { reason: event.reason, revision: event.revision, snapshot }
}


/// ASCII whitespace as the companion protocol uses it.
pub open spec fn is_ws(c: char) -> bool {
    c == ' ' || c == '\t' || c == '\n' || c == '\r'
}

/// The sequence without its leading whitespace.
pub open spec fn trim_start(s: Seq<char>) -> Seq<char>
    decreases s.len(),
{
    if s.len() > 0 && is_ws(s[0]) {
        trim_start(s.drop_first())
    } else {
        s
    }
}

/// The sequence without its trailing whitespace.
pub open spec fn trim_end(s: Seq<char>) -> Seq<char>
    decreases s.len(),
{
    if s.len() > 0 && is_ws(s.last()) {
        trim_end(s.drop_last())
    } else {
        s
    }
}

/// The sequence without leading and trailing whitespace.
pub open spec fn trimmed(s: Seq<char>) -> Seq<char> {
    trim_end(trim_start(s))
}

/// Whether every character is a decimal digit.
pub open spec fn all_digits(s: Seq<char>) -> bool {
    forall|i: int| 0 <= i < s.len() ==> is_digit(#[trigger] s[i])
}

/// The value of a digit string, most significant digit first.
pub open spec fn dec_val(s: Seq<char>) -> int
    decreases s.len(),
{
    if s.len() == 0 {
        0
    } else {
        dec_val(s.drop_last()) * 10 + digit_val(s.last())
    }
}

/// Powers of ten.
pub open spec fn pow10(n: nat) -> int
    decreases n,
{
    if n == 0 {
        1
    } else {
        10 * pow10((n - 1) as nat)
    }
}

/// The signed integer a trimmed string spells: an optional sign, then at
/// least one digit, and nothing else.
pub open spec fn signed_val(t: Seq<char>) -> Option<int> {
    if t.len() == 0 {
        None
    } else if t[0] == '-' || t[0] == '+' {
        let d = t.drop_first();
        if d.len() == 0 || !all_digits(d) {
            None
        } else if t[0] == '-' {
            Some(-dec_val(d))
        } else {
            Some(dec_val(d))
        }
    } else if !all_digits(t) {
        None
    } else {
        Some(dec_val(t))
    }
}

/// The revision a sync-request payload spells: its trimmed decimal value,
/// or zero when it is malformed or does not fit a signed sixty-four bit
/// integer.
pub open spec fn spec_parse_revision(s: Seq<char>) -> int {
    match signed_val(trimmed(s)) {
        None => 0,
        Some(v) => if i64::MIN <= v <= i64::MAX {
            v
        } else {
            0
        },
    }
}

/// A digit string's value is bounded by ten to its length, and from below
/// by ten to one less when its first digit is not zero.
proof fn lemma_dec_val_bounds(s: Seq<char>)
    requires
        all_digits(s),
    ensures
        0 <= dec_val(s) < pow10(s.len()),
        s.len() > 0 && s[0] != '0' ==> dec_val(s) >= pow10((s.len() - 1) as nat),
    decreases s.len(),
{
    if s.len() > 0 {
        let prev = s.drop_last();
        assert(all_digits(prev));
        lemma_dec_val_bounds(prev);
        assert(is_digit(s[s.len() - 1]));
        assert(0 <= digit_val(s.last()) <= 9);
        if s.len() == 1 {
            assert(dec_val(prev) == 0);
            if s[0] != '0' {
                assert(digit_val(s[0]) >= 1) by {
                    assert(is_digit(s[0]));
                    assert('0' as u32 == 48);
                    if s[0] as u32 == 48 {
                        vstd::utf8::char_u32_cast(s[0], 48);
                        vstd::utf8::char_u32_cast('0', 48);
                    }
                }
            }
        } else {
            assert(prev[0] == s[0]);
        }
    }
}

/// A leading zero does not change a digit string's value.
proof fn lemma_dec_val_first_zero(s: Seq<char>)
    requires
        s.len() > 0,
        s[0] == '0',
    ensures
        dec_val(s) == dec_val(s.drop_first()),
    decreases s.len(),
{
    if s.len() == 1 {
        assert(digit_val('0') == 0);
        assert(s.drop_last() =~= Seq::<char>::empty());
        assert(s.drop_first() =~= Seq::<char>::empty());
    } else {
        let prev = s.drop_last();
        assert(prev[0] == '0');
        lemma_dec_val_first_zero(prev);
        assert(prev.drop_first() =~= s.drop_first().drop_last());
        assert(s.drop_first().len() > 0);
        assert(s.drop_first().last() == s.last());
    }
}

/// Any prefix of zeros can be dropped from a digit string's value.
proof fn lemma_dec_val_zeros(s: Seq<char>, k: int)
    requires
        0 <= k <= s.len(),
        forall|j: int| 0 <= j < k ==> s[j] == '0',
    ensures
        dec_val(s) == dec_val(s.subrange(k, s.len() as int)),
    decreases k,
{
    if k == 0 {
        assert(s.subrange(0, s.len() as int) =~= s);
    } else {
        lemma_dec_val_first_zero(s);
        let d = s.drop_first();
        assert(d =~= s.subrange(1, s.len() as int));
        lemma_dec_val_zeros(d, k - 1);
        assert(d.subrange(k - 1, d.len() as int) =~= s.subrange(k, s.len() as int));
    }
}

/// Leading whitespace up to a first non-blank character is what
/// [`trim_start`] removes.
proof fn lemma_trim_start_idx(s: Seq<char>, k: int)
    requires
        0 <= k <= s.len(),
        forall|j: int| 0 <= j < k ==> is_ws(#[trigger] s[j]),
        k == s.len() || !is_ws(s[k]),
    ensures
        trim_start(s) == s.subrange(k, s.len() as int),
    decreases k,
{
    if k == 0 {
        assert(s.subrange(0, s.len() as int) =~= s);
    } else {
        assert(is_ws(s[0]));
        let d = s.drop_first();
        assert(d =~= s.subrange(1, s.len() as int));
        lemma_trim_start_idx(d, k - 1);
        assert(d.subrange(k - 1, d.len() as int) =~= s.subrange(k, s.len() as int));
    }
}

/// Trailing whitespace back to a last non-blank character is what
/// [`trim_end`] removes.
proof fn lemma_trim_end_idx(s: Seq<char>, e: int)
    requires
        0 <= e <= s.len(),
        forall|j: int| e <= j < s.len() ==> is_ws(#[trigger] s[j]),
        e == 0 || !is_ws(s[e - 1]),
    ensures
        trim_end(s) == s.subrange(0, e),
    decreases s.len() - e,
{
    if e == s.len() {
        if s.len() > 0 && is_ws(s.last()) {
            assert(!is_ws(s[e - 1]));
        }
        assert(s.subrange(0, e) =~= s);
    } else {
        assert(is_ws(s.last()));
        let d = s.drop_last();
        lemma_trim_end_idx(d, e);
        assert(d.subrange(0, e) =~= s.subrange(0, e));
    }
}

/// Parse the revision a companion sync request carries: the payload's
/// trimmed decimal value, with zero for anything malformed or out of
/// range, exactly as [`spec_parse_revision`] says.
pub fn parse_watch_revision(s: &str) -> (r: i64)
    ensures
        r as int == spec_parse_revision(s@),
{
    let n = s.unicode_len();
    let mut start: usize = 0;
    while start < n && is_ws_exec(s.get_char(start))
        invariant
            start <= n,
            n == s@.len(),
            forall|j: int| 0 <= j < start ==> is_ws(#[trigger] s@[j]),
        decreases n - start,
    {
        start = start + 1;
    }
    let mut end: usize = n;
    while end > start && is_ws_exec(s.get_char(end - 1))
        invariant
            start <= end <= n,
            n == s@.len(),
            forall|j: int| 0 <= j < start ==> is_ws(#[trigger] s@[j]),
            forall|j: int| end <= j < n ==> is_ws(#[trigger] s@[j]),
        decreases end,
    {
        end = end - 1;
    }
    proof {
        lemma_trim_start_idx(s@, start as int);
        let sub = s@.subrange(start as int, n as int);
        assert forall|j: int| (end - start) <= j < sub.len() implies is_ws(#[trigger] sub[j]) by {
            assert(sub[j] == s@[j + start]);
        }
        if end > start {
            assert(sub[end - start - 1] == s@[end - 1]);
        }
        lemma_trim_end_idx(sub, end - start);
        assert(sub.subrange(0, end - start) =~= s@.subrange(start as int, end as int));
        assert(trimmed(s@) == s@.subrange(start as int, end as int));
    }
    let ghost t = s@.subrange(start as int, end as int);
    if start == end {
        proof {
            assert(t.len() == 0);
        }
        return 0;
    }
    let c0 = s.get_char(start);
    let negative = c0 == '-';
    let has_sign = c0 == '-' || c0 == '+';
    let dstart = if has_sign {
        start + 1
    } else {
        start
    };
    let ghost digits = s@.subrange(dstart as int, end as int);
    proof {
        assert(t[0] == s@[start as int]);
        assert(digits =~= (if c0 == '-' || c0 == '+' {
            t.drop_first()
        } else {
            t
        }));
    }
    if dstart == end {
        proof {
            assert(digits.len() == 0);
        }
        return 0;
    }
    let mut z = dstart;
    while z < end && s.get_char(z) == '0'
        invariant
            dstart <= z <= end <= n,
            n == s@.len(),
            forall|j: int| dstart <= j < z ==> s@[j] == '0',
        decreases end - z,
    {
        z = z + 1;
    }
    let ghost sig = s@.subrange(z as int, end as int);
    let mut acc: i128 = 0;
    let mut i = z;
    while i < end
        invariant
            start < end <= n,
            dstart <= z <= i <= end,
            n == s@.len(),
            t == trimmed(s@),
            t == s@.subrange(start as int, end as int),
            digits == s@.subrange(dstart as int, end as int),
            sig == s@.subrange(z as int, end as int),
            t[0] == s@[start as int],
            negative == (s@[start as int] == '-'),
            has_sign == (s@[start as int] == '-' || s@[start as int] == '+'),
            dstart == (if has_sign {
                start + 1
            } else {
                start as int
            }),
            dstart < end,
            digits == (if has_sign {
                t.drop_first()
            } else {
                t
            }),
            z == end || s@[z as int] != '0',
            i - z <= 19,
            forall|j: int| z <= j < i ==> is_digit(#[trigger] s@[j]),
            forall|j: int| dstart <= j < z ==> s@[j] == '0',
            acc == dec_val(s@.subrange(z as int, i as int)),
            0 <= acc < pow10((i - z) as nat),
        decreases end - i,
    {
        let u = s.get_char(i) as u32;
        if u < 48 || u > 57 {
            proof {
                assert(digits[i - dstart] == s@[i as int]);
                assert(!is_digit(digits[i - dstart]));
                assert(!all_digits(digits));
                assert(signed_val(t) is None);
            }
            return 0;
        }
        if i - z >= 19 {
            proof {
                if all_digits(digits) {
                    assert forall|j: int| 0 <= j < sig.len() implies is_digit(
                        #[trigger] sig[j],
                    ) by {
                        assert(sig[j] == digits[j + (z - dstart)]);
                    }
                    assert(sig[0] == s@[z as int]);
                    assert(sig[0] != '0');
                    lemma_dec_val_bounds(sig);
                    assert(sig.len() >= 20);
                    assert(pow10(19) == 10000000000000000000) by {
                        reveal_with_fuel(pow10, 21);
                    }
                    lemma_pow10_mono(19, (sig.len() - 1) as nat);
                    assert(dec_val(sig) >= pow10((sig.len() - 1) as nat));
                    assert(dec_val(sig) > i64::MAX);
                    lemma_dec_val_zeros(digits, z - dstart);
                    assert(digits.subrange(z - dstart, digits.len() as int) =~= sig);
                    assert(dec_val(digits) == dec_val(sig));
                    assert(dec_val(digits) > i64::MAX);
                    assert(spec_parse_revision(s@) == 0);
                } else {
                    assert(signed_val(t) is None);
                }
            }
            return 0;
        }
        proof {
            assert(pow10(((i - z) + 1) as nat) == 10 * pow10((i - z) as nat));
            assert(pow10(19) == 10000000000000000000) by {
                reveal_with_fuel(pow10, 21);
            }
            lemma_pow10_mono(((i - z) + 1) as nat, 19);
        }
        acc = acc * 10 + ((u - 48) as i128);
        i = i + 1;
        proof {
            let taken = s@.subrange(z as int, i as int);
            assert(taken =~= s@.subrange(z as int, i - 1).push(s@[i - 1]));
            assert(taken.drop_last() =~= s@.subrange(z as int, i - 1));
            assert(dec_val(taken) == dec_val(taken.drop_last()) * 10 + digit_val(taken.last()));
            assert(digit_val(s@[i - 1]) == u - 48);
        }
    }
    proof {
        assert(s@.subrange(z as int, i as int) =~= sig);
        assert forall|j: int| 0 <= j < digits.len() implies is_digit(#[trigger] digits[j]) by {
            assert(digits[j] == s@[j + dstart]);
            if j + dstart < z {
                assert(s@[j + dstart] == '0');
                assert(is_digit('0'));
            }
        }
        lemma_dec_val_zeros(digits, z - dstart);
        assert(digits.subrange(z - dstart, digits.len() as int) =~= sig);
        assert(dec_val(digits) == dec_val(sig));
        assert(acc == dec_val(digits));
        lemma_dec_val_bounds(digits);
    }
    if negative {
        if acc > 9223372036854775808i128 {
            return 0;
        }
        proof {
            assert(signed_val(t) == Some(-dec_val(digits)));
            assert(i64::MIN <= -acc <= i64::MAX);
        }
        (-acc) as i64
    } else {
        if acc > 9223372036854775807i128 {
            return 0;
        }
        proof {
            assert(signed_val(t) == Some(dec_val(digits)));
        }
        acc as i64
    }
}

/// Powers of ten grow with the exponent.
proof fn lemma_pow10_mono(a: nat, b: nat)
    requires
        a <= b,
    ensures
        pow10(a) <= pow10(b),
        pow10(a) >= 1,
    decreases b,
{
    if a < b {
        lemma_pow10_mono(a, (b - 1) as nat);
    } else if a > 0 {
        lemma_pow10_mono((a - 1) as nat, (a - 1) as nat);
    }
}

/// Whether `c` is protocol whitespace.
fn is_ws_exec(c: char) -> (r: bool)
    ensures
        r == is_ws(c),
{
    c == ' ' || c == '\t' || c == '\n' || c == '\r'
}

/// Where a companion message is routed.
#[derive(Debug, Clone, Copy, PartialEq, Eq, Structural)]
pub enum WatchRoute {
    /// The companion asks for a sync from its revision.
    SyncRequest,
    /// The companion submits a save (toggle) of one alarm.
    SaveAlarm,
    /// The companion submits a delete of one alarm.
    DeleteAlarm,
    /// An unrecognized path, to be logged and dropped.
    Unknown,
}

/// Route a companion message by its path: the three protocol paths map to
/// their commands, anything else is unknown.
pub fn route_watch_path(path: &str) -> (r: WatchRoute)
    ensures
        path@ == "/threshold/sync_request"@ ==> r == WatchRoute::SyncRequest,
        path@ == "/threshold/save_alarm"@ ==> r == WatchRoute::SaveAlarm,
        path@ == "/threshold/delete_alarm"@ ==> r == WatchRoute::DeleteAlarm,
        (path@ != "/threshold/sync_request"@ && path@ != "/threshold/save_alarm"@ && path@
            != "/threshold/delete_alarm"@) ==> r == WatchRoute::Unknown,
{
    proof {
        reveal_strlit("/threshold/sync_request");
        reveal_strlit("/threshold/save_alarm");
        reveal_strlit("/threshold/delete_alarm");
        assert("/threshold/sync_request"@.len() == 23);
        assert("/threshold/save_alarm"@.len() == 21);
        assert("/threshold/delete_alarm"@.len() == 23);
        assert("/threshold/sync_request"@[11] == 's');
        assert("/threshold/delete_alarm"@[11] == 'd');
    }
    if str_eq(path, "/threshold/sync_request") {
        WatchRoute::SyncRequest
    } else if str_eq(path, "/threshold/save_alarm") {
        WatchRoute::SaveAlarm
    } else if str_eq(path, "/threshold/delete_alarm") {
        WatchRoute::DeleteAlarm
    } else {
        WatchRoute::Unknown
    }
}

} // verus!
