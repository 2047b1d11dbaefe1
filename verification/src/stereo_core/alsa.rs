//! The ALSA configuration that routes the system's default output through the
//! stereo injector.
use vstd::prelude::*;
use vstd::string::*;

use crate::text::{contains, has_substring, replace, replaced};

verus! {

/// The system ALSA configuration.
pub const REAL_ASOUND_CONF: &'static str = "/etc/asound.conf";

/// Where the rewritten configuration is written before it is mounted over the
/// system one.
pub const TEMP_ASOUND_CONF: &'static str = "/tmp/asound.stereo.conf";

/// The name the original default device is kept under.
pub const ORIGINAL_DEFAULT: &'static str = "pcm.original_default";

/// The declaration of the default device.
pub const DEFAULT_DECLARATION: &'static str = "pcm.!default";

/// The interceptor devices, up to the path of the injector program.
pub const INTERCEPTOR_HEAD: &'static str = "\npcm.!default {\n    type plug \n    slave { \n        pcm \"stereo_interceptor\" \n        format S16_LE \n        rate 48000 \n        channels 2 \n    }\n}\npcm.stereo_interceptor {\n    type file \n    slave.pcm \"null\" \n    file \"| ";

/// The interceptor devices, after the path of the injector program.
pub const INTERCEPTOR_TAIL: &'static str = " --inject\" \n    format \"raw\"\n}\n";

/// The configuration that routes the default output through the injector at
/// `exe`: `None` when `original` already does (it names the original default
/// device); otherwise `original` with its default device renamed, followed by
/// the interceptor devices.
pub open spec fn redirected(original: Seq<char>, exe: Seq<char>) -> Option<Seq<char>> {
    if has_substring(original, ORIGINAL_DEFAULT@) {
        None
    } else {
        Some(
            replaced(original, DEFAULT_DECLARATION@, ORIGINAL_DEFAULT@) + INTERCEPTOR_HEAD@ + exe
                + INTERCEPTOR_TAIL@,
        )
    }
}

/// Whether a configuration already routes the default output through the
/// injector: it names the original default device. Such a configuration is
/// left as it is.
pub fn is_redirected(conf: &str) -> (r: bool)
    ensures
        r == has_substring(conf@, ORIGINAL_DEFAULT@),
        r == (redirected(conf@, Seq::empty()) is None),
{
    contains(conf, ORIGINAL_DEFAULT)
}

/// Rewrites an ALSA configuration so that the default output goes through the
/// injector at `exe`, or `None` when it already does.
pub fn redirected_asound_conf(original: &str, exe: &str) -> (r: Option<String>)
    ensures
        r matches Some(c) ==> redirected(original@, exe@) == Some(c@),
        r is None ==> redirected(original@, exe@) is None,
{
    if contains(original, ORIGINAL_DEFAULT) {
        return None;
    }
    proof {
        reveal_strlit("pcm.!default");
    }
    let mut conf = replace(original, DEFAULT_DECLARATION, ORIGINAL_DEFAULT);
    conf.append(INTERCEPTOR_HEAD);
    conf.append(exe);
    conf.append(INTERCEPTOR_TAIL);
    Some(conf)
}

} // verus!
