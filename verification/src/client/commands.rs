//! The decisions of the speaker client: which shell commands a server may run,
//! the queue of text-to-speech commands and its interruption, the detection of
//! the assistant's own replies, the reconnection delay and the log clock.
use vstd::prelude::*;
use vstd::string::*;

use crate::text::{
    contains, has_substring, is_white_space, occurs_at, lemma_prefix_survives_trim_end, lemma_trim_end_is_prefix,
    lemma_trim_start_skip, push_zero_padded, starts_with, trim, trim_end, trim_start, trimmed,
    zero_padded,
};

verus! {

/// The prefixes of the shell commands that a server may run.
pub open spec fn shell_whitelist() -> Seq<Seq<char>> {
    seq![
        "mphelper"@,
        "miplayer"@,
        "/usr/sbin/tts_play.sh"@,
        "ubus call mediaplayer"@,
        "ubus call mibrain"@,
        "ubus call pnshelper"@,
        "fw_env"@,
        "micocfg_"@,
        "/etc/init.d/mico_aivs_lab"@,
        "echo $(fw_env"@,
        "echo $(micocfg_"@,
        "[ ! -f /tmp/mipns/mute ]"@,
    ]
}

/// The whitelist as strings.
fn whitelist() -> (r: Vec<&'static str>)
    ensures
        r@.len() == shell_whitelist().len(),
        forall|i: int| 0 <= i < r@.len() ==> #[trigger] r@[i]@ == shell_whitelist()[i],
{
    let mut v: Vec<&'static str> = Vec::new();
    v.push("mphelper");
    v.push("miplayer");
    v.push("/usr/sbin/tts_play.sh");
    v.push("ubus call mediaplayer");
    v.push("ubus call mibrain");
    v.push("ubus call pnshelper");
    v.push("fw_env");
    v.push("micocfg_");
    v.push("/etc/init.d/mico_aivs_lab");
    v.push("echo $(fw_env");
    v.push("echo $(micocfg_");
    v.push("[ ! -f /tmp/mipns/mute ]");
    v
}

/// Whether a script, trimmed of surrounding white space, begins with a
/// whitelisted prefix.
pub open spec fn shell_allowed(script: Seq<char>) -> bool {
    exists|i: int| 0 <= i < shell_whitelist().len() && #[trigger] shell_whitelist()[i].is_prefix_of(
        trimmed(script),
    )
}

/// The whitelist is this fixed list: a script may run exactly when, trimmed
/// of surrounding white space, it begins with one of these twelve prefixes.
pub proof fn lemma_whitelist_is_the_fixed_list(script: Seq<char>)
    ensures
        shell_allowed(script) <==> {
            let t = trimmed(script);
            ||| "mphelper"@.is_prefix_of(t)
            ||| "miplayer"@.is_prefix_of(t)
            ||| "/usr/sbin/tts_play.sh"@.is_prefix_of(t)
            ||| "ubus call mediaplayer"@.is_prefix_of(t)
            ||| "ubus call mibrain"@.is_prefix_of(t)
            ||| "ubus call pnshelper"@.is_prefix_of(t)
            ||| "fw_env"@.is_prefix_of(t)
            ||| "micocfg_"@.is_prefix_of(t)
            ||| "/etc/init.d/mico_aivs_lab"@.is_prefix_of(t)
            ||| "echo $(fw_env"@.is_prefix_of(t)
            ||| "echo $(micocfg_"@.is_prefix_of(t)
            ||| "[ ! -f /tmp/mipns/mute ]"@.is_prefix_of(t)
        },
{
    let w = shell_whitelist();
    let t = trimmed(script);
    assert(w.len() == 12);
    assert(w[0] == "mphelper"@);
    assert(w[1] == "miplayer"@);
    assert(w[2] == "/usr/sbin/tts_play.sh"@);
    assert(w[3] == "ubus call mediaplayer"@);
    assert(w[4] == "ubus call mibrain"@);
    assert(w[5] == "ubus call pnshelper"@);
    assert(w[6] == "fw_env"@);
    assert(w[7] == "micocfg_"@);
    assert(w[8] == "/etc/init.d/mico_aivs_lab"@);
    assert(w[9] == "echo $(fw_env"@);
    assert(w[10] == "echo $(micocfg_"@);
    assert(w[11] == "[ ! -f /tmp/mipns/mute ]"@);
    if shell_allowed(script) {
        let i = choose|i: int| 0 <= i < w.len() && #[trigger] w[i].is_prefix_of(t);
        assert(0 <= i < 12);
    }
}

/// Every whitelisted prefix is nonempty, and neither begins nor ends with white
/// space.
pub proof fn lemma_whitelist_prefixes_bounded()
    ensures
        forall|i: int|
            0 <= i < shell_whitelist().len() ==> {
                let p = #[trigger] shell_whitelist()[i];
                &&& p.len() > 0
                &&& !is_white_space(p[0])
                &&& !is_white_space(p.last())
            },
{
    reveal_strlit("mphelper");
    reveal_strlit("miplayer");
    reveal_strlit("/usr/sbin/tts_play.sh");
    reveal_strlit("ubus call mediaplayer");
    reveal_strlit("ubus call mibrain");
    reveal_strlit("ubus call pnshelper");
    reveal_strlit("fw_env");
    reveal_strlit("micocfg_");
    reveal_strlit("/etc/init.d/mico_aivs_lab");
    reveal_strlit("echo $(fw_env");
    reveal_strlit("echo $(micocfg_");
    reveal_strlit("[ ! -f /tmp/mipns/mute ]");
}

/// A script is allowed where, after `k` characters of white space, it begins
/// with the whitelisted prefix of index `i`.
pub proof fn lemma_allowed_after_white_space(script: Seq<char>, k: int, i: int)
    requires
        0 <= k <= script.len(),
        forall|j: int| 0 <= j < k ==> is_white_space(#[trigger] script[j]),
        0 <= i < shell_whitelist().len(),
        shell_whitelist()[i].is_prefix_of(script.skip(k)),
    ensures
        shell_allowed(script),
{
    lemma_whitelist_prefixes_bounded();
    let p = shell_whitelist()[i];
    let rest = script.skip(k);
    lemma_trim_start_skip(script, k);
    assert(rest[0] == p[0]);
    assert(trim_start(rest) == rest);
    lemma_prefix_survives_trim_end(p, rest);
    assert(shell_whitelist()[i].is_prefix_of(trimmed(script)));
}

/// Whether a server may run `script`.
pub fn is_shell_allowed(script: &str) -> (r: bool)
    ensures
        r == shell_allowed(script@),
{
    let t = trim(script);
    let prefixes = whitelist();
    let mut i: usize = 0;
    while i < prefixes.len()
        invariant
            t@ == trimmed(script@),
            prefixes@.len() == shell_whitelist().len(),
            forall|k: int| 0 <= k < prefixes@.len() ==> #[trigger] prefixes@[k]@ == shell_whitelist()[k],
            i <= prefixes@.len(),
            forall|k: int| 0 <= k < i ==> !(#[trigger] shell_whitelist()[k]).is_prefix_of(trimmed(script@)),
        decreases prefixes@.len() - i,
    {
        if starts_with(t, prefixes[i]) {
            assert(shell_whitelist()[i as int].is_prefix_of(trimmed(script@)));
            return true;
        }
        i = i + 1;
    }
    false
}

/// Appending text to an allowed script keeps it allowed: whether a script may
/// run is decided by its beginning alone.
pub proof fn lemma_appending_keeps_allowed(script: Seq<char>, tail: Seq<char>)
    requires
        shell_allowed(script),
    ensures
        shell_allowed(trim_start(script) + tail),
{
    lemma_whitelist_prefixes_bounded();
    let i = choose|i: int| 0 <= i < shell_whitelist().len() && #[trigger] shell_whitelist()[i].is_prefix_of(
        trimmed(script),
    );
    let p = shell_whitelist()[i];
    let start = trim_start(script);
    lemma_trim_end_is_prefix(start);
    let longer = start + tail;
    assert(p.is_prefix_of(longer)) by {
        assert forall|j: int| 0 <= j < p.len() implies p[j] == longer[j] by {
            assert(p[j] == trimmed(script)[j]);
            assert(trimmed(script)[j] == start[j]);
        }
    }
    assert(longer[0] == p[0]);
    assert(trim_start(longer) == longer);
    lemma_prefix_survives_trim_end(p, longer);
    assert(shell_whitelist()[i].is_prefix_of(trimmed(longer)));
}

/// The command that speaks text; it is queued rather than run at once.
pub const TTS_COMMAND: &'static str = "/usr/sbin/tts_play.sh";

/// Whether a trimmed script stops the media player, which interrupts speech.
pub open spec fn stops_playback(trimmed_script: Seq<char>) -> bool {
    has_substring(trimmed_script, "mediaplayer"@) && has_substring(trimmed_script, "stop"@)
}

/// Only a script that holds both `mediaplayer` and `stop` interrupts speech;
/// playing a URL through the media player, for one, does not.
pub proof fn lemma_only_a_stop_interrupts(trimmed_script: Seq<char>)
    ensures
        stops_playback(trimmed_script) <==> has_substring(trimmed_script, "mediaplayer"@)
            && has_substring(trimmed_script, "stop"@),
        !has_substring(trimmed_script, "stop"@) ==> !stops_playback(trimmed_script),
{
}

/// What to do with a shell command that a server sent.
pub enum ShellAction {
    /// Refuse it, with this message.
    Reject(String),
    /// Queue it for speech under this generation, and answer at once.
    Enqueue(u64),
    /// Run it now.
    Run,
}

/// The text-to-speech queue: a generation that each interruption advances,
/// so that queued commands of an older generation are skipped, and the number
/// of commands waiting.
pub struct TtsQueue {
    /// The current generation.
    pub generation: u64,
    /// The commands queued and not yet finished.
    pub pending: usize,
}

/// `n + 1`, wrapping at the top of `u64` as an atomic counter does.
pub open spec fn next_u64(n: u64) -> u64 {
    if n == u64::MAX {
        0
    } else {
        (n + 1) as u64
    }
}

/// `n + 1`, wrapping at the top of `usize`.
pub open spec fn inc_usize(n: usize) -> usize {
    if n == usize::MAX {
        0
    } else {
        (n + 1) as usize
    }
}

/// `n - 1`, staying at 0: a count of waiting commands never goes below zero.
pub open spec fn dec_usize(n: usize) -> usize {
    if n == 0 {
        0
    } else {
        (n - 1) as usize
    }
}

fn wrapping_inc_u64(n: u64) -> (r: u64)
    ensures
        r == next_u64(n),
{
    if n == u64::MAX {
        0
    } else {
        n + 1
    }
}

fn wrapping_inc_usize(n: usize) -> (r: usize)
    ensures
        r == inc_usize(n),
{
    if n == usize::MAX {
        0
    } else {
        n + 1
    }
}

fn saturating_dec_usize(n: usize) -> (r: usize)
    ensures
        r == dec_usize(n),
{
    if n == 0 {
        0
    } else {
        n - 1
    }
}

impl TtsQueue {
    /// A queue of generation 0 with nothing waiting.
    pub fn new() -> (r: Self)
        ensures
            r.generation == 0,
            r.pending == 0,
    {
        TtsQueue { generation: 0, pending: 0 }
    }

    /// Decides on a shell command from a server. A command off the whitelist
    /// is rejected with `command not allowed: <script>`. A command that stops
    /// the media player advances the generation and empties the count. A
    /// speech command is then queued under the current generation and counted;
    /// any other allowed command is run.
    pub fn on_shell_request(&mut self, script: &str) -> (r: ShellAction)
        ensures
            !shell_allowed(script@) ==> *final(self) == *old(self),
            !shell_allowed(script@) ==> (r matches ShellAction::Reject(m) && m@
                == "command not allowed: "@ + script@),
            shell_allowed(script@) ==> !(r is Reject),
            shell_allowed(script@) && !has_substring(trimmed(script@), "stop"@) ==> final(self).generation
                == old(self).generation,
            shell_allowed(script@) && !has_substring(trimmed(script@), "stop"@) && !(r is Enqueue)
                ==> final(self).pending == old(self).pending,
            shell_allowed(script@) && has_substring(trimmed(script@), "mediaplayer"@) && has_substring(
                trimmed(script@),
                "stop"@,
            ) ==> final(self).generation == next_u64(old(self).generation),
            shell_allowed(script@) ==> {
                let stopped = stops_playback(trimmed(script@));
                let generation = if stopped {
                    next_u64(old(self).generation)
                } else {
                    old(self).generation
                };
                let waiting = if stopped {
                    0
                } else {
                    old(self).pending
                };
                &&& final(self).generation == generation
                &&& if TTS_COMMAND@.is_prefix_of(trimmed(script@)) {
                    &&& r matches ShellAction::Enqueue(g) && g == generation
                    &&& final(self).pending == inc_usize(waiting)
                } else {
                    &&& r is Run
                    &&& final(self).pending == waiting
                }
            },
    {
        if !is_shell_allowed(script) {
            let mut m = String::from_str("command not allowed: ");
            m.append(script);
            return ShellAction::Reject(m);
        }
        let t = trim(script);
        if contains(t, "mediaplayer") && contains(t, "stop") {
            self.generation = wrapping_inc_u64(self.generation);
            self.pending = 0;
        }
        if starts_with(t, TTS_COMMAND) {
            let generation = self.generation;
            self.pending = wrapping_inc_usize(self.pending);
            return ShellAction::Enqueue(generation);
        }
        ShellAction::Run
    }

    /// Decides on a queued speech command of generation `generation` as it
    /// leaves the queue: one of an older generation is skipped and uncounted
    /// (`false`); any other is to be played (`true`).
    pub fn on_dequeue(&mut self, generation: u64) -> (play: bool)
        ensures
            play == (generation >= old(self).generation),
            final(self).generation == old(self).generation,
            play ==> final(self).pending == old(self).pending,
            !play ==> final(self).pending == dec_usize(old(self).pending),
    {
        if generation < self.generation {
            self.pending = saturating_dec_usize(self.pending);
            return false;
        }
        true
    }

    /// Counts a played command as finished; returns the count before, and
    /// whether it was the last one waiting, when the server is told that
    /// speech has finished.
    pub fn on_played(&mut self) -> (r: (usize, bool))
        ensures
            r.0 == old(self).pending,
            r.1 == (old(self).pending == 1),
            final(self).pending == dec_usize(old(self).pending),
            final(self).generation == old(self).generation,
    {
        let prev = self.pending;
        self.pending = saturating_dec_usize(self.pending);
        (prev, prev == 1)
    }
}

/// Whether an instruction-log line is the assistant's own reply: a language
/// understanding stream start, or speech synthesis.
pub open spec fn native_reply(line: Seq<char>) -> bool {
    ||| has_substring(line, "\"namespace\":\"Nlp\""@) && has_substring(line, "\"name\":\"StartStream\""@)
    ||| has_substring(line, "\"namespace\":\"SpeechSynthesizer\""@) && has_substring(
        line,
        "\"name\":\"Speak\""@,
    )
}

/// A line is the assistant's own reply exactly when it holds both
/// `"namespace":"Nlp"` and `"name":"StartStream"`, or both
/// `"namespace":"SpeechSynthesizer"` and `"name":"Speak"`, each anywhere in the
/// line and in either order.
pub proof fn lemma_native_reply_fields_anywhere(line: Seq<char>)
    ensures
        native_reply(line) <==> (
            (exists|a: int| occurs_at(line, "\"namespace\":\"Nlp\""@, a))
                && (exists|b: int| occurs_at(line, "\"name\":\"StartStream\""@, b))
        ) || (
            (exists|a: int| occurs_at(line, "\"namespace\":\"SpeechSynthesizer\""@, a))
                && (exists|b: int| occurs_at(line, "\"name\":\"Speak\""@, b))
        ),
{
}

/// Whether an instruction-log line is the assistant's own reply.
pub fn is_native_nlp_reply(line: &str) -> (r: bool)
    ensures
        r == native_reply(line@),
{
    (contains(line, "\"namespace\":\"Nlp\"") && contains(line, "\"name\":\"StartStream\"")) || (
    contains(line, "\"namespace\":\"SpeechSynthesizer\"") && contains(line, "\"name\":\"Speak\""))
}

/// The command that stops the media player.
pub const STOP_PLAYBACK_SCRIPT: &'static str = "ubus call mediaplayer player_play_operation '{\"action\":\"stop\"}'";

/// One step of the handling of an instruction-log line.
#[derive(Debug, Clone, Copy, PartialEq, Eq)]
pub enum InstructionAction {
    /// Run `STOP_PLAYBACK_SCRIPT`.
    StopPlayback,
    /// Send the line to the server as an `instruction` event.
    Forward,
}

/// The steps for a new instruction-log line, in order. While the assistant's
/// own replies are blocked, a line that is one of them first stops the media
/// player; every line is then forwarded to the server.
pub fn instruction_line_actions(block_nlp: bool, line: &str) -> (r: Vec<InstructionAction>)
    ensures
        block_nlp && has_substring(line@, "\"namespace\":\"Nlp\""@) && has_substring(
            line@,
            "\"name\":\"StartStream\""@,
        ) ==> r@ == seq![InstructionAction::StopPlayback, InstructionAction::Forward],
        block_nlp && has_substring(line@, "\"namespace\":\"SpeechSynthesizer\""@) && has_substring(
            line@,
            "\"name\":\"Speak\""@,
        ) ==> r@ == seq![InstructionAction::StopPlayback, InstructionAction::Forward],
        !block_nlp ==> r@ == seq![InstructionAction::Forward],
        r@ == if block_nlp && native_reply(line@) {
            seq![InstructionAction::StopPlayback, InstructionAction::Forward]
        } else {
            seq![InstructionAction::Forward]
        },
{
    let mut steps: Vec<InstructionAction> = Vec::new();
    if block_nlp && is_native_nlp_reply(line) {
        steps.push(InstructionAction::StopPlayback);
    }
    steps.push(InstructionAction::Forward);
    steps
}

/// The longest wait between connection attempts, in seconds.
pub const MAX_RETRY_DELAY_SECS: u64 = 60;

/// Twice a wait, at most `MAX_RETRY_DELAY_SECS`.
pub open spec fn doubled_delay(secs: nat) -> nat {
    if 2 * secs < MAX_RETRY_DELAY_SECS {
        2 * secs
    } else {
        MAX_RETRY_DELAY_SECS as nat
    }
}

/// The wait before the next connection attempt: twice the last, at most 60 s.
pub fn next_retry_delay(secs: u64) -> (r: u64)
    requires
        secs <= u64::MAX / 2,
    ensures
        r == doubled_delay(secs as nat),
{
    let doubled = secs * 2;
    if doubled < MAX_RETRY_DELAY_SECS {
        doubled
    } else {
        MAX_RETRY_DELAY_SECS
    }
}

/// The waits between connection attempts: 1 s after a success or at the
/// start, doubled after each failure up to 60 s.
pub struct RetryBackoff {
    delay_secs: u64,
}

/// The wait after `failures` consecutive failed attempts.
pub open spec fn delay_after_failures(failures: nat) -> nat
    decreases failures,
{
    if failures == 0 {
        1
    } else {
        doubled_delay(delay_after_failures((failures - 1) as nat))
    }
}

/// `2^k`.
pub open spec fn power_of_two(k: nat) -> nat
    decreases k,
{
    if k == 0 {
        1
    } else {
        2 * power_of_two((k - 1) as nat)
    }
}

impl RetryBackoff {
    /// The wait is never over the limit.
    #[verifier::type_invariant]
    spec fn within_limit(self) -> bool {
        1 <= self.delay_secs <= MAX_RETRY_DELAY_SECS
    }

    /// The wait before the next attempt, in seconds.
    pub closed spec fn delay(self) -> nat {
        self.delay_secs as nat
    }

    /// A backoff that waits 1 s.
    pub fn new() -> (r: Self)
        ensures
            r.delay() == 1,
    {
        RetryBackoff { delay_secs: 1 }
    }

    /// An attempt failed: returns the seconds to wait before the next one, and
    /// doubles the wait after it, up to 60 s.
    pub fn on_failure(&mut self) -> (wait: u64)
        ensures
            wait == old(self).delay(),
            final(self).delay() == doubled_delay(old(self).delay()),
    {
        proof {
            use_type_invariant(&*self);
        }
        let wait = self.delay_secs;
        self.delay_secs = next_retry_delay(wait);
        wait
    }

    /// An attempt succeeded: the next wait is 1 s again.
    pub fn on_success(&mut self)
        ensures
            final(self).delay() == 1,
    {
        self.delay_secs = 1;
    }
}

/// After `k` consecutive failures from the start or from a success, the wait is
/// `2^k` seconds, at most 60: 1, 2, 4, 8, 16, 32, 60, 60, ...
pub proof fn lemma_retry_delays_double_to_limit(k: nat)
    ensures
        delay_after_failures(k) == if power_of_two(k) < MAX_RETRY_DELAY_SECS {
            power_of_two(k)
        } else {
            MAX_RETRY_DELAY_SECS as nat
        },
    decreases k,
{
    if k > 0 {
        lemma_retry_delays_double_to_limit((k - 1) as nat);
    }
}

/// `HH:MM:SS.mmm` of the time of day (UTC) `micros` microseconds after the epoch.
pub open spec fn clock_text(micros: nat) -> Seq<char> {
    let secs = micros / 1_000_000;
    let ms = (micros % 1_000_000) / 1000;
    zero_padded((secs / 3600) % 24, 2) + ":"@ + zero_padded((secs / 60) % 60, 2) + ":"@
        + zero_padded(secs % 60, 2) + "."@ + zero_padded(ms, 3)
}

/// Renders the time of day of a timestamp in microseconds.
pub fn clock_string(micros: u128) -> (r: String)
    ensures
        r@ == clock_text(micros as nat),
{
    let secs = micros / 1_000_000;
    let ms = (micros % 1_000_000) / 1000;
    let mut s = String::new();
    push_zero_padded(&mut s, ((secs / 3600) % 24) as u64, 2);
    s.append(":");
    push_zero_padded(&mut s, ((secs / 60) % 60) as u64, 2);
    s.append(":");
    push_zero_padded(&mut s, (secs % 60) as u64, 2);
    s.append(".");
    push_zero_padded(&mut s, ms as u64, 3);
    s
}

/// The current time of day as `HH:MM:SS.mmm`, for log lines. A clock that
/// reads earlier than the epoch reads as midnight.
pub fn now_str() -> (r: String)
    ensures
        exists|t: nat| r@ == clock_text(t),
{
    let micros = crate::sync::now_us();
    clock_string(micros)
}

/// An interruption skips every speech command queued before it: a command
/// queued under a generation no later than the queue's is of an older
/// generation than the one a stop moves to (unless the generation wraps).
pub proof fn lemma_interruption_skips_queued(queued: u64, current: u64)
    requires
        queued <= current,
        current < u64::MAX,
    ensures
        queued < next_u64(current),
{
}

} // verus!
