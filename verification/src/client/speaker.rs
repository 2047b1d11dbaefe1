//! The speaker's shell commands and the reading of their output.
use vstd::prelude::*;
use vstd::string::*;

use crate::text::{contains, has_substring, replace, replaced, trim, trimmed};

verus! {

/// Prints the boot partition.
pub const GET_BOOT_SCRIPT: &'static str = "\n            echo $(fw_env -g boot_part)\n        ";
/// Sets the boot partition (`%s`) and prints it.
pub const SET_BOOT_SCRIPT: &'static str = "\n            fw_env -s boot_part %s >/dev/null 2>&1 && echo $(fw_env -g boot_part)\n        ";
/// Prints the device model.
pub const DEVICE_MODEL_SCRIPT: &'static str = "\n            echo $(micocfg_model)\n        ";
/// Prints the device serial number.
pub const DEVICE_SN_SCRIPT: &'static str = "\n            echo $(micocfg_sn)\n        ";
/// Prints the playback state.
pub const PLAY_STATUS_SCRIPT: &'static str = "\n            mphelper mute_stat\n        ";
/// Resumes playback.
pub const PLAY_SCRIPT: &'static str = "\n            mphelper play\n        ";
/// Pauses playback.
pub const PAUSE_SCRIPT: &'static str = "\n            mphelper pause\n        ";
/// Speaks a text (`%s`).
pub const PLAY_TEXT_SCRIPT: &'static str = "\n            /usr/sbin/tts_play.sh '%s'\n        ";
/// Plays a URL (`%s`).
pub const PLAY_URL_SCRIPT: &'static str = "\n            ubus call mediaplayer player_play_url '{\"url\":\"%s\",\"type\": 1}'\n        ";
/// Prints whether the microphone is on.
pub const MIC_STATUS_SCRIPT: &'static str = "\n            [ ! -f /tmp/mipns/mute ] && echo on || echo off\n        ";
/// Turns the microphone on.
pub const MIC_ON_SCRIPT: &'static str = "\n            ubus -t1 -S call pnshelper event_notify '{\"src\":3, \"event\":7}' 2>&1\n        ";
/// Turns the microphone off.
pub const MIC_OFF_SCRIPT: &'static str = "\n            ubus -t1 -S call pnshelper event_notify '{\"src\":3, \"event\":8}' 2>&1\n        ";
/// Asks the assistant a question (`%s`).
pub const ASK_SCRIPT: &'static str = "\n            ubus call mibrain ai_service '{\"tts\":1,\"nlp\":1,\"nlp_text\":\"%s\"}'\n        ";
/// Stops what the assistant is playing, without breaking the dialogue state.
pub const ABORT_SCRIPT: &'static str = "\n            ubus call mediaplayer player_play_operation '{\"action\":\"stop\"}'\n        ";
/// Wakes the assistant.
pub const WAKE_UP_SCRIPT: &'static str = "\n                ubus call pnshelper event_notify '{\"src\":1,\"event\":0}'\n            ";
/// Toggles the microphone, which ends a wake-up.
pub const WAKE_DOWN_SCRIPT: &'static str = "\n                ubus call pnshelper event_notify '{\"src\":3, \"event\":7}'\n                sleep 0.1\n                ubus call pnshelper event_notify '{\"src\":3, \"event\":8}'\n            ";

/// A script with its `%s` placeholders filled with `arg`.
pub open spec fn filled(template: Seq<char>, arg: Seq<char>) -> Seq<char> {
    replaced(template, "%s"@, arg)
}

/// Whether a command's output reports success as `"code": 0`.
pub open spec fn reports_success(stdout: Seq<char>) -> bool {
    has_substring(stdout, "\"code\": 0"@)
}

/// Whether a bus call's output reports success as `"code":0`.
pub open spec fn bus_reports_success(stdout: Seq<char>) -> bool {
    has_substring(stdout, "\"code\":0"@)
}

/// The speaker's operations, run as shell commands on the device.
pub struct SpeakerManager;

impl SpeakerManager {
    fn fill(template: &str, arg: &str) -> (r: String)
        ensures
            r@ == filled(template@, arg@),
    {
        proof {
            reveal_strlit("%s");
        }
        replace(template, "%s", arg)
    }

    /// The script that sets the boot partition.
    pub fn set_boot_script(boot_part: &str) -> (r: String)
        ensures
            r@ == filled(SET_BOOT_SCRIPT@, boot_part@),
    {
        Self::fill(SET_BOOT_SCRIPT, boot_part)
    }

    /// The script that speaks `text`.
    pub fn play_text_script(text: &str) -> (r: String)
        ensures
            r@ == filled(PLAY_TEXT_SCRIPT@, text@),
    {
        Self::fill(PLAY_TEXT_SCRIPT, text)
    }

    /// The script that plays `url`.
    pub fn play_url_script(url: &str) -> (r: String)
        ensures
            r@ == filled(PLAY_URL_SCRIPT@, url@),
    {
        Self::fill(PLAY_URL_SCRIPT, url)
    }

    /// The script that asks the assistant `text`.
    pub fn ask_xiaoai_script(text: &str) -> (r: String)
        ensures
            r@ == filled(ASK_SCRIPT@, text@),
    {
        Self::fill(ASK_SCRIPT, text)
    }

    /// The script that wakes the assistant, or ends a wake-up.
    pub fn wake_up_script(flag: bool) -> (r: &'static str)
        ensures
            r@ == if flag {
                WAKE_UP_SCRIPT@
            } else {
                WAKE_DOWN_SCRIPT@
            },
    {
        if flag {
            WAKE_UP_SCRIPT
        } else {
            WAKE_DOWN_SCRIPT
        }
    }

    /// A printed value: the output without surrounding white space.
    pub fn printed_value(stdout: &str) -> (r: String)
        ensures
            r@ == trimmed(stdout@),
    {
        String::from_str(trim(stdout))
    }

    /// Whether setting the boot partition took: the output names it.
    pub fn boot_set(stdout: &str, boot_part: &str) -> (r: bool)
        ensures
            r == has_substring(stdout@, boot_part@),
    {
        contains(stdout, boot_part)
    }

    /// The playback state printed: `playing` where the output holds a `1`,
    /// else `paused` where it holds a `2`, else `idle`.
    pub fn play_status_from(stdout: &str) -> (r: String)
        ensures
            r@ == if has_substring(stdout@, "1"@) {
                "playing"@
            } else if has_substring(stdout@, "2"@) {
                "paused"@
            } else {
                "idle"@
            },
    {
        let status = if contains(stdout, "1") {
            "playing"
        } else if contains(stdout, "2") {
            "paused"
        } else {
            "idle"
        };
        String::from_str(status)
    }

    /// The microphone state printed: `on` where the output holds `on`, else `off`.
    pub fn mic_status_from(stdout: &str) -> (r: String)
        ensures
            r@ == if has_substring(stdout@, "on"@) {
                "on"@
            } else {
                "off"@
            },
    {
        let status = if contains(stdout, "on") {
            "on"
        } else {
            "off"
        };
        String::from_str(status)
    }

    /// Whether a command reported success (`"code": 0`).
    pub fn succeeded(stdout: &str) -> (r: bool)
        ensures
            r == reports_success(stdout@),
    {
        contains(stdout, "\"code\": 0")
    }

    /// Whether a bus call reported success (`"code":0`).
    pub fn bus_succeeded(stdout: &str) -> (r: bool)
        ensures
            r == bus_reports_success(stdout@),
    {
        contains(stdout, "\"code\":0")
    }
}

} // verus!
