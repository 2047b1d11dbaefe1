//! The PCM stream settings for playback and recording on the speaker, and the
//! check of settings that a server asks for.
use vstd::prelude::*;
use vstd::string::*;

use crate::text::{decimal, push_decimal};

verus! {

/// Settings of a raw PCM stream.
#[derive(Clone, Debug)]
pub struct AudioConfig {
    /// The ALSA PCM device.
    pub pcm: String,
    pub channels: u16,
    pub bits_per_sample: u16,
    pub sample_rate: u32,
    /// Frames per period.
    pub period_size: u32,
    /// Frames per buffer.
    pub buffer_size: u32,
}

/// The settings used when a request names none: 16 kHz mono 16-bit on the
/// `noop` device, with periods of 1024 frames and buffers of 4096 frames.
pub fn default_audio_config() -> (r: AudioConfig)
    ensures
        r.pcm@ == "noop"@,
        r.channels == 1,
        r.bits_per_sample == 16,
        r.sample_rate == 16000,
        r.period_size == 1024,
        r.buffer_size == 4096,
{
    AudioConfig {
        pcm: String::from_str("noop"),
        channels: 1,
        bits_per_sample: 16,
        sample_rate: 16000,
        period_size: 1024,
        buffer_size: 4096,
    }
}

/// Whether a PCM device may be used: `noop` or `default`.
pub open spec fn pcm_allowed(pcm: Seq<char>) -> bool {
    pcm == "noop"@ || pcm == "default"@
}

/// The first rule that `c` breaks, as the message `validate` reports, or `None`
/// when it breaks none. The rules, in order: the device is allowed; 1 or 2
/// channels; 16 or 32 bits per sample; a sample rate from 8000 to 48000; a
/// period size and a buffer size from 1 to 65536.
pub open spec fn violation(c: &AudioConfig) -> Option<Seq<char>> {
    if !pcm_allowed(c.pcm@) {
        Some("pcm '"@ + c.pcm@ + "' not allowed"@)
    } else if c.channels < 1 || c.channels > 2 {
        Some("channels "@ + decimal(c.channels as nat) + " out of range [1,2]"@)
    } else if c.bits_per_sample != 16 && c.bits_per_sample != 32 {
        Some("bits_per_sample "@ + decimal(c.bits_per_sample as nat) + " not in [16,32]"@)
    } else if c.sample_rate < 8000 || c.sample_rate > 48000 {
        Some("sample_rate "@ + decimal(c.sample_rate as nat) + " out of range [8000,48000]"@)
    } else if c.period_size < 1 || c.period_size > 65536 {
        Some("period_size "@ + decimal(c.period_size as nat) + " out of range"@)
    } else if c.buffer_size < 1 || c.buffer_size > 65536 {
        Some("buffer_size "@ + decimal(c.buffer_size as nat) + " out of range"@)
    } else {
        None
    }
}

/// `head`, the number in decimal, then `tail`.
fn message_with_number(head: &str, n: u64, tail: &str) -> (r: String)
    ensures
        r@ == head@ + decimal(n as nat) + tail@,
{
    let mut m = String::from_str(head);
    push_decimal(&mut m, n);
    m.append(tail);
    m
}

impl AudioConfig {
    /// Checks settings that came from a request: `Ok` when no rule is broken,
    /// else the message of the first rule broken.
    pub fn validate(&self) -> (r: Result<(), String>)
        ensures
            r is Ok <==> violation(self) is None,
            r matches Err(m) ==> violation(self) == Some(m@),
    {
        let noop = String::from_str("noop");
        let default = String::from_str("default");
        if !(self.pcm == noop || self.pcm == default) {
            let mut m = String::from_str("pcm '");
            m.append(self.pcm.as_str());
            m.append("' not allowed");
            return Err(m);
        }
        if self.channels < 1 || self.channels > 2 {
            return Err(message_with_number("channels ", self.channels as u64, " out of range [1,2]"));
        }
        if self.bits_per_sample != 16 && self.bits_per_sample != 32 {
            return Err(
                message_with_number("bits_per_sample ", self.bits_per_sample as u64, " not in [16,32]"),
            );
        }
        if self.sample_rate < 8000 || self.sample_rate > 48000 {
            return Err(
                message_with_number(
                    "sample_rate ",
                    self.sample_rate as u64,
                    " out of range [8000,48000]",
                ),
            );
        }
        if self.period_size < 1 || self.period_size > 65536 {
            return Err(message_with_number("period_size ", self.period_size as u64, " out of range"));
        }
        if self.buffer_size < 1 || self.buffer_size > 65536 {
            return Err(message_with_number("buffer_size ", self.buffer_size as u64, " out of range"));
        }
        Ok(())
    }
}

/// The settings used when a request names none pass the check.
pub proof fn lemma_default_config_valid(c: AudioConfig)
    requires
        c.pcm@ == "noop"@,
        c.channels == 1,
        c.bits_per_sample == 16,
        c.sample_rate == 16000,
        c.period_size == 1024,
        c.buffer_size == 4096,
    ensures
        violation(&c) is None,
{
}

/// The ALSA sample format of a width: `S<bits>_LE`.
pub open spec fn sample_format(bits: u16) -> Seq<char> {
    "S"@ + decimal(bits as nat) + "_LE"@
}

/// The options that `aplay` and `arecord` share: raw data in the configured
/// format, rate, channels, buffer size and period size.
pub open spec fn pcm_options(c: &AudioConfig) -> Seq<Seq<char>> {
    seq![
        "-f"@,
        sample_format(c.bits_per_sample),
        "-r"@,
        decimal(c.sample_rate as nat),
        "-c"@,
        decimal(c.channels as nat),
        "--buffer-size"@,
        decimal(c.buffer_size as nat),
        "--period-size"@,
        decimal(c.period_size as nat),
    ]
}

/// The arguments of the `aplay` process that plays a stream from its input.
pub open spec fn aplay_arguments(c: &AudioConfig) -> Seq<Seq<char>> {
    seq!["--quiet"@, "-t"@, "raw"@] + pcm_options(c) + seq!["-"@]
}

/// The arguments of the `arecord` process that captures a stream to its
/// output from the configured device.
pub open spec fn arecord_arguments(c: &AudioConfig) -> Seq<Seq<char>> {
    seq!["--quiet"@, "-t"@, "raw"@, "-D"@, c.pcm@] + pcm_options(c)
}

/// The views of a list of strings.
pub open spec fn string_views(v: Seq<String>) -> Seq<Seq<char>> {
    v.map_values(|s: String| s@)
}

fn push_str_arg(args: &mut Vec<String>, s: &str)
    ensures
        string_views(final(args)@) == string_views(old(args)@).push(s@),
{
    args.push(String::from_str(s));
    assert(string_views(args@) =~= string_views(old(args)@).push(s@));
}

fn push_arg(args: &mut Vec<String>, s: String)
    ensures
        string_views(final(args)@) == string_views(old(args)@).push(s@),
{
    let ghost v = s@;
    args.push(s);
    assert(string_views(args@) =~= string_views(old(args)@).push(v));
}

fn push_pcm_options(args: &mut Vec<String>, c: &AudioConfig)
    ensures
        string_views(final(args)@) == string_views(old(args)@) + pcm_options(c),
{
    push_str_arg(args, "-f");
    let mut format = String::from_str("S");
    push_decimal(&mut format, c.bits_per_sample as u64);
    format.append("_LE");
    push_arg(args, format);
    push_str_arg(args, "-r");
    push_arg(args, crate::text::decimal_string(c.sample_rate as u64));
    push_str_arg(args, "-c");
    push_arg(args, crate::text::decimal_string(c.channels as u64));
    push_str_arg(args, "--buffer-size");
    push_arg(args, crate::text::decimal_string(c.buffer_size as u64));
    push_str_arg(args, "--period-size");
    push_arg(args, crate::text::decimal_string(c.period_size as u64));
    assert(string_views(args@) =~= string_views(old(args)@) + pcm_options(c));
}

/// The arguments of the playback process.
pub fn aplay_args(c: &AudioConfig) -> (r: Vec<String>)
    ensures
        string_views(r@) == aplay_arguments(c),
{
    let mut args: Vec<String> = Vec::new();
    push_str_arg(&mut args, "--quiet");
    push_str_arg(&mut args, "-t");
    push_str_arg(&mut args, "raw");
    push_pcm_options(&mut args, c);
    push_str_arg(&mut args, "-");
    assert(string_views(args@) =~= aplay_arguments(c));
    args
}

/// The arguments of the capture process.
pub fn arecord_args(c: &AudioConfig) -> (r: Vec<String>)
    ensures
        string_views(r@) == arecord_arguments(c),
{
    let mut args: Vec<String> = Vec::new();
    push_str_arg(&mut args, "--quiet");
    push_str_arg(&mut args, "-t");
    push_str_arg(&mut args, "raw");
    push_str_arg(&mut args, "-D");
    push_str_arg(&mut args, c.pcm.as_str());
    push_pcm_options(&mut args, c);
    assert(string_views(args@) =~= arecord_arguments(c));
    args
}

} // verus!
