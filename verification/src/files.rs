//! Naming of the temporary files that hold finished speech, and the
//! adjustments that are applied before one is written.

use crate::helpers::{ends_with_lowered, path_ends_with};
use crate::rate::{clamp_rate, clamp_steps};
use crate::text::{chars_of, has_suffix, matches_at, same_text};
use vstd::prelude::*;
use vstd::string::StringExecFns;

verus! {

/// The prefix of every temporary speech file.
pub open spec fn temp_prefix() -> Seq<char> {
    "aidc_tts_"@
}

/// `aidc_tts_{stamp}_openai.{extension}`
pub open spec fn temp_name(stamp: Seq<char>, extension: Seq<char>) -> Seq<char> {
    temp_prefix() + stamp + "_openai."@ + extension
}

/// The name of the temporary file for speech that was synthesized at `stamp`.
pub fn temp_file_name(stamp: &str, extension: &str) -> (name: String)
    ensures
        name@ == temp_name(stamp@, extension@),
{
    let mut name = String::from_str("aidc_tts_");
    name.append(stamp);
    name.append("_openai.");
    name.append(extension);
    name
}

/// The name is that of a temporary WAV file of this program: it starts with
/// the prefix and ends in `.wav`, in lower case.
pub open spec fn is_temp_wav(name: Seq<char>) -> bool {
    temp_prefix().is_prefix_of(name) && has_suffix(name, ".wav"@)
}

/// Whether a file name is that of a temporary WAV file of this program.
/// Nothing else may be deleted on request.
pub fn is_temp_wav_name(name: &str) -> (r: bool)
    ensures
        r == is_temp_wav(name@),
{
    let chars = chars_of(name);
    let prefix = chars_of("aidc_tts_");
    let suffix = chars_of(".wav");
    let len = chars.len();
    assert(chars@.subrange(0, len as int) =~= chars@);
    if !matches_at(chars.as_slice(), 0, len, prefix.as_slice()) {
        return false;
    }
    if len < suffix.len() {
        return false;
    }
    let at = len - suffix.len();
    let r = matches_at(chars.as_slice(), at, len, suffix.as_slice());
    proof {
        let tail = chars@.subrange(at as int, len as int);
        assert(tail =~= name@.skip(name@.len() - suffix@.len()));
        if r {
            assert(tail.subrange(0, suffix@.len() as int) =~= tail);
        }
        if tail == suffix@ {
            assert(tail.subrange(0, suffix@.len() as int) =~= suffix@);
        }
    }
    r
}

/// The name starts with the prefix and ends in `.wav`, capitals or not.
pub open spec fn is_temp_wav_any_case(name: Seq<char>) -> bool {
    temp_prefix().is_prefix_of(name) && ends_with_lowered(name, ".wav"@)
}

/// Whether a file name is that of a temporary WAV file, whatever the case of
/// its extension. Only such files are swept when they are stale.
pub fn is_temp_wav_name_any_case(name: &str) -> (r: bool)
    ensures
        r == is_temp_wav_any_case(name@),
{
    let chars = chars_of(name);
    let prefix = chars_of("aidc_tts_");
    assert(chars@.subrange(0, chars@.len() as int) =~= chars@);
    matches_at(chars.as_slice(), 0, chars.len(), prefix.as_slice()) && path_ends_with(
        chars.as_slice(),
        ".wav",
    )
}

/// Age in minutes after which a temporary file is stale, where none is given.
pub const DEFAULT_MAX_AGE_MINUTES: u64 = 240;

/// The time, in seconds, before which a temporary file counts as stale:
/// `now` less the maximal age, which saturates. `None` where that would lie
/// before the start of the clock.
pub open spec fn stale_before(now: u64, max_age_minutes: Option<u64>) -> Option<u64> {
    let minutes = match max_age_minutes {
        Some(m) => m,
        None => DEFAULT_MAX_AGE_MINUTES,
    };
    let age = if minutes * 60 > u64::MAX {
        u64::MAX
    } else {
        (minutes * 60) as u64
    };
    if age > now {
        None
    } else {
        Some((now - age) as u64)
    }
}

/// The cutoff before which temporary files are swept.
pub fn stale_cutoff(now: u64, max_age_minutes: Option<u64>) -> (r: Option<u64>)
    ensures
        r == stale_before(now, max_age_minutes),
{
    let minutes = match max_age_minutes {
        Some(m) => m,
        None => DEFAULT_MAX_AGE_MINUTES,
    };
    let age: u64 = if minutes > u64::MAX / 60 {
        u64::MAX
    } else {
        minutes * 60
    };
    if age > now {
        None
    } else {
        Some(now - age)
    }
}

/// Whether a finished file of this extension is normalized to 16-bit PCM:
/// only a WAV file is; any other container is stored as it came.
pub fn is_normalized(extension: &str) -> (r: bool)
    ensures
        r == (extension@ == "wav"@),
{
    same_text(extension, "wav")
}

/// The rate adjustment and the volume that a finished file is made with: no
/// adjustment and full volume by default, the rate limited to ten steps
/// either way and the volume to 100 percent.
pub fn synthesis_adjustments(rate: Option<i32>, volume: Option<u8>) -> (r: (i32, u8))
    ensures
        r.0 == (match rate {
            Some(steps) => clamp_steps(steps),
            None => 0,
        }),
        r.1 == (match volume {
            Some(percent) => if percent > 100 {
                100u8
            } else {
                percent
            },
            None => 100u8,
        }),
{
    let steps = match rate {
        Some(steps) => clamp_rate(steps),
        None => 0,
    };
    let percent = match volume {
        Some(percent) => if percent > 100 {
            100
        } else {
            percent
        },
        None => 100,
    };
    (steps, percent)
}

} // verus!
