//! Audio settings of the stereo apps: the ALSA devices, the PCM format and
//! the Opus encoder parameters.
use vstd::prelude::*;
use vstd::string::*;

verus! {

/// What the audio is tuned for.
#[derive(Debug, Clone, PartialEq, Eq, Structural, Hash)]
pub enum AudioScene {
    Music,
    Voice,
}

/// Settings for capture, playback and Opus coding.
#[derive(Debug, Clone)]
pub struct AudioConfig {
    /// ALSA capture device.
    pub capture_device: String,
    /// ALSA playback device.
    pub playback_device: String,
    pub sample_rate: u32,
    pub channels: u16,
    /// Samples per channel in a frame.
    pub frame_size: usize,
    pub audio_scene: AudioScene,
    /// Opus bit rate, in bits per second.
    pub bitrate: i32,
    /// Variable bit rate.
    pub vbr: bool,
    /// In-band forward error correction.
    pub fec: bool,
}

impl Default for AudioConfig {
    /// Voice settings: 16 kHz mono, 20 ms frames of 320 samples, 32 kbit/s,
    /// capture from `plug:Capture`, playback on `default`, no VBR, no FEC.
    fn default() -> (r: Self)
        ensures
            r.audio_scene == AudioScene::Voice,
            r.capture_device@ == "plug:Capture"@,
            r.playback_device@ == "default"@,
            r.sample_rate == 16_000,
            r.channels == 1,
            r.frame_size == 320,
            r.bitrate == 32_000,
            !r.vbr,
            !r.fec,
    {
        AudioConfig {
            audio_scene: AudioScene::Voice,
            capture_device: String::from_str("plug:Capture"),
            playback_device: String::from_str("default"),
            sample_rate: 16_000,
            channels: 1,
            frame_size: 320,
            bitrate: 32_000,
            vbr: false,
            fec: false,
        }
    }
}

impl AudioConfig {
    /// Music settings: 48 kHz stereo, 20 ms frames of 960 samples, 320 kbit/s;
    /// devices and the VBR and FEC switches as in `default`.
    pub fn music() -> (r: Self)
        ensures
            r.audio_scene == AudioScene::Music,
            r.capture_device@ == "plug:Capture"@,
            r.playback_device@ == "default"@,
            r.sample_rate == 48_000,
            r.channels == 2,
            r.frame_size == 960,
            r.bitrate == 320_000,
            !r.vbr,
            !r.fec,
    {
        let mut c = Self::default();
        c.audio_scene = AudioScene::Music;
        c.sample_rate = 48_000;
        c.channels = 2;
        c.frame_size = 960;
        c.bitrate = 320_000;
        c
    }

    /// Voice settings: 16 kHz mono, 20 ms frames of 320 samples, 32 kbit/s;
    /// devices and the VBR and FEC switches as in `default`.
    pub fn voice() -> (r: Self)
        ensures
            r.audio_scene == AudioScene::Voice,
            r.capture_device@ == "plug:Capture"@,
            r.playback_device@ == "default"@,
            r.sample_rate == 16_000,
            r.channels == 1,
            r.frame_size == 320,
            r.bitrate == 32_000,
            !r.vbr,
            !r.fec,
    {
        let mut c = Self::default();
        c.audio_scene = AudioScene::Voice;
        c.sample_rate = 16_000;
        c.channels = 1;
        c.frame_size = 320;
        c.bitrate = 32_000;
        c
    }
}

} // verus!
