//! Texts shown to the user that depend on counts or names.

use vstd::prelude::*;
use crate::app_state::OfflineState;
use crate::constants::HOOK_TIMEOUT_SECS;
use crate::text::{chars_of, string_from_chars};

verus! {

/// The decimal digit of a number below ten.
pub open spec fn digit_of(d: nat) -> char {
    if d == 0 { '0' }
    else if d == 1 { '1' }
    else if d == 2 { '2' }
    else if d == 3 { '3' }
    else if d == 4 { '4' }
    else if d == 5 { '5' }
    else if d == 6 { '6' }
    else if d == 7 { '7' }
    else if d == 8 { '8' }
    else { '9' }
}

/// The decimal writing of a number, without leading zeros.
pub open spec fn decimal_of(n: nat) -> Seq<char>
    decreases n,
{
    if n < 10 {
        seq![digit_of(n)]
    } else {
        decimal_of(n / 10).push(digit_of(n % 10))
    }
}

fn digit_char(d: u64) -> (c: char)
    requires
        d < 10,
    ensures
        c == digit_of(d as nat),
{
    if d == 0 { '0' }
    else if d == 1 { '1' }
    else if d == 2 { '2' }
    else if d == 3 { '3' }
    else if d == 4 { '4' }
    else if d == 5 { '5' }
    else if d == 6 { '6' }
    else if d == 7 { '7' }
    else if d == 8 { '8' }
    else { '9' }
}

fn decimal_chars(n: u64) -> (r: Vec<char>)
    ensures
        r@ == decimal_of(n as nat),
    decreases n,
{
    if n < 10 {
        let mut v: Vec<char> = Vec::new();
        v.push(digit_char(n));
        assert(v@ =~= decimal_of(n as nat));
        v
    } else {
        let mut v = decimal_chars(n / 10);
        v.push(digit_char(n % 10));
        v
    }
}

/// A number written in decimal, as `{}` formats it.
pub fn decimal(n: u64) -> (r: String)
    ensures
        r@ == decimal_of(n as nat),
{
    let v = decimal_chars(n);
    string_from_chars(v.as_slice())
}

fn append_chars(out: &mut Vec<char>, s: &str)
    ensures
        final(out)@ == old(out)@ + s@,
{
    let cs = chars_of(s);
    let mut i: usize = 0;
    let ghost start = out@;
    while i < cs.len()
        invariant
            cs@ == s@,
            i <= cs@.len(),
            out@ == start + s@.subrange(0, i as int),
        decreases cs@.len() - i,
    {
        out.push(cs[i]);
        i += 1;
        assert(out@ =~= start + s@.subrange(0, i as int));
    }
    assert(s@.subrange(0, s@.len() as int) =~= s@);
}

fn append_decimal(out: &mut Vec<char>, n: u64)
    ensures
        final(out)@ == old(out)@ + decimal_of(n as nat),
{
    let mut d = decimal_chars(n);
    out.append(&mut d);
}

/// `"s"` unless the count is one.
pub open spec fn plural_s(count: nat) -> Seq<char> {
    if count == 1 { Seq::empty() } else { seq!['s'] }
}

/// The heading of the tracker: with the number of invalid recordings when
/// there are any.
pub fn tracker_title(invalid_count: u64) -> (r: String)
    ensures
        r@ == (if invalid_count > 0 {
            "Upload Tracker ("@ + decimal_of(invalid_count as nat) + " invalid)"@
        } else {
            "Upload Tracker"@
        }),
{
    let mut out: Vec<char> = Vec::new();
    if invalid_count > 0 {
        append_chars(&mut out, "Upload Tracker (");
        append_decimal(&mut out, invalid_count);
        append_chars(&mut out, " invalid)");
    } else {
        append_chars(&mut out, "Upload Tracker");
    }
    assert(out@ =~= (if invalid_count > 0 {
        "Upload Tracker ("@ + decimal_of(invalid_count as nat) + " invalid)"@
    } else {
        "Upload Tracker"@
    }));
    string_from_chars(out.as_slice())
}

/// The note under the progress bar about recordings queued for automatic upload.
pub fn queued_note(count: u64) -> (r: String)
    ensures
        r@ == "(+"@ + decimal_of(count as nat) + " more recording"@ + plural_s(count as nat)
            + " queued for auto-upload)"@,
{
    let mut out: Vec<char> = Vec::new();
    append_chars(&mut out, "(+");
    append_decimal(&mut out, count);
    append_chars(&mut out, " more recording");
    if count != 1 {
        out.push('s');
    }
    append_chars(&mut out, " queued for auto-upload)");
    assert(out@ =~= "(+"@ + decimal_of(count as nat) + " more recording"@ + plural_s(count as nat)
        + " queued for auto-upload)"@);
    string_from_chars(out.as_slice())
}

/// The label of the upload button.
pub fn upload_button_label(uploadable_count: u64) -> (r: String)
    ensures
        r@ == "Upload "@ + decimal_of(uploadable_count as nat) + " Recordings"@,
{
    let mut out: Vec<char> = Vec::new();
    append_chars(&mut out, "Upload ");
    append_decimal(&mut out, uploadable_count);
    append_chars(&mut out, " Recordings");
    string_from_chars(out.as_slice())
}

/// The label of the button that deletes uploaded local recordings.
pub fn clear_uploaded_label(uploaded_local_count: u64) -> (r: String)
    ensures
        r@ == "Clear "@ + decimal_of(uploaded_local_count as nat) + " Uploaded Recordings"@,
{
    let mut out: Vec<char> = Vec::new();
    append_chars(&mut out, "Clear ");
    append_decimal(&mut out, uploaded_local_count);
    append_chars(&mut out, " Uploaded Recordings");
    string_from_chars(out.as_slice())
}

/// The heading of an invalid recording's reasons.
pub fn error_reasons_heading(reason_count: u64, by_server: bool) -> (r: String)
    ensures
        r@ == "⚠ "@ + decimal_of(reason_count as nat) + " error"@ + plural_s(reason_count as nat) + (
        if by_server {
            " (server invalidated)"@
        } else {
            Seq::<char>::empty()
        }),
{
    let mut out: Vec<char> = Vec::new();
    append_chars(&mut out, "⚠ ");
    append_decimal(&mut out, reason_count);
    append_chars(&mut out, " error");
    if reason_count != 1 {
        out.push('s');
    }
    if by_server {
        append_chars(&mut out, " (server invalidated)");
    }
    assert(out@ =~= "⚠ "@ + decimal_of(reason_count as nat) + " error"@ + plural_s(reason_count as nat) + (
    if by_server {
        " (server invalidated)"@
    } else {
        Seq::<char>::empty()
    }));
    string_from_chars(out.as_slice())
}

/// The warning shown when the recorder could not hook into the game in time.
pub fn hook_timeout_message(game_name: &str) -> (r: String)
    ensures
        r@ == "Failed to hook into "@ + game_name@
            + ".\n\nOWL Control was unable to capture the game window after "@ + decimal_of(
            HOOK_TIMEOUT_SECS as nat,
        ) + " seconds.\n\nThis may happen if:\n- The game has anti-cheat software\n- The game is running with elevated privileges\n- The game uses a rendering method that OBS cannot capture\n\nPlease try:\n- Running OWL Control as administrator\n- Checking if the game is on the supported games list\n- Testing a different game on the supported games list"@,
{
    let mut out: Vec<char> = Vec::new();
    append_chars(&mut out, "Failed to hook into ");
    append_chars(&mut out, game_name);
    append_chars(&mut out, ".\n\nOWL Control was unable to capture the game window after ");
    append_decimal(&mut out, HOOK_TIMEOUT_SECS);
    append_chars(
        &mut out,
        " seconds.\n\nThis may happen if:\n- The game has anti-cheat software\n- The game is running with elevated privileges\n- The game uses a rendering method that OBS cannot capture\n\nPlease try:\n- Running OWL Control as administrator\n- Checking if the game is on the supported games list\n- Testing a different game on the supported games list",
    );
    string_from_chars(out.as_slice())
}

/// The time left until the next retry, as the offline toggle shows it.
pub open spec fn retry_wait_text(next_retry_time: u64, now: u64) -> Seq<char> {
    if next_retry_time > now {
        decimal_of(((next_retry_time - now) / 60) as nat) + "m "@ + decimal_of(
            ((next_retry_time - now) % 60) as nat,
        ) + "s"@
    } else {
        "retrying..."@
    }
}

/// The hover text of the offline toggle at Unix time `now`.
pub open spec fn offline_toggle_text(upload_in_progress: bool, state: OfflineState, now: u64) -> Seq<char> {
    if upload_in_progress {
        "Cannot toggle offline mode while upload is in progress"@
    } else if state.backoff_active {
        "Offline - auto-retry in "@ + retry_wait_text(state.next_retry_time, now) + " (attempt #"@
            + decimal_of((state.retry_count + 1) as nat) + ")"@
    } else if state.mode {
        "Offline mode (click to go online)"@
    } else {
        "Online mode (click to go offline)"@
    }
}

/// The offline toggle of the account section at Unix time `now`: its hover
/// text, and whether it is disabled (while an upload runs, and while the
/// retry loop runs, so that the server is not flooded).
pub fn offline_toggle(upload_in_progress: bool, state: OfflineState, now: u64) -> (r: (String, bool))
    ensures
        r.0@ == offline_toggle_text(upload_in_progress, state, now),
        r.1 == (upload_in_progress || state.backoff_active),
{
    let mut out: Vec<char> = Vec::new();
    if upload_in_progress {
        append_chars(&mut out, "Cannot toggle offline mode while upload is in progress");
    } else if state.backoff_active {
        append_chars(&mut out, "Offline - auto-retry in ");
        let ghost head = out@;
        if state.next_retry_time > now {
            let secs = state.next_retry_time - now;
            append_decimal(&mut out, secs / 60);
            append_chars(&mut out, "m ");
            append_decimal(&mut out, secs % 60);
            append_chars(&mut out, "s");
        } else {
            append_chars(&mut out, "retrying...");
        }
        assert(out@ =~= head + retry_wait_text(state.next_retry_time, now));
        append_chars(&mut out, " (attempt #");
        append_decimal(&mut out, state.retry_count as u64 + 1);
        append_chars(&mut out, ")");
    } else if state.mode {
        append_chars(&mut out, "Offline mode (click to go online)");
    } else {
        append_chars(&mut out, "Online mode (click to go offline)");
    }
    assert(out@ =~= offline_toggle_text(upload_in_progress, state, now));
    (string_from_chars(out.as_slice()), upload_in_progress || state.backoff_active)
}

} // verus!
