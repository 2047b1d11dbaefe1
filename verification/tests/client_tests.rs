use xiaoai::client::commands::{
    clock_string, instruction_line_actions, is_native_nlp_reply, is_shell_allowed, next_retry_delay,
    now_str, InstructionAction, RetryBackoff, ShellAction, TtsQueue, STOP_PLAYBACK_SCRIPT,
};
use xiaoai::client::monitor::instruction::{InstructionMonitor, INSTRUCTION_FILE_PATH};
use xiaoai::client::monitor::kws::{parse_kws_line, KwsMonitor, KwsMonitorEvent};
use xiaoai::client::speaker::{
    SpeakerManager, ABORT_SCRIPT, MIC_OFF_SCRIPT, MIC_ON_SCRIPT, WAKE_DOWN_SCRIPT, WAKE_UP_SCRIPT,
};

#[test]
fn shell_whitelist_checks_trimmed_prefix() {
    assert!(is_shell_allowed("mphelper play"));
    assert!(is_shell_allowed("  \n  ubus call mediaplayer player_play_operation '{}'"));
    assert!(is_shell_allowed("[ ! -f /tmp/mipns/mute ] && echo on"));
    assert!(is_shell_allowed("echo $(micocfg_sn)"));
    assert!(!is_shell_allowed("rm -rf /"));
    assert!(!is_shell_allowed("echo hi"));
    assert!(!is_shell_allowed(""));
    assert!(!is_shell_allowed(" ubus call other"));
    // Trailing and Unicode white space are trimmed too.
    assert!(is_shell_allowed("\u{3000}fw_env -g boot_part\u{a0}"));
}

#[test]
fn shell_requests_are_rejected_queued_or_run() {
    let mut q = TtsQueue::new();
    match q.on_shell_request("reboot") {
        ShellAction::Reject(m) => assert_eq!(m, "command not allowed: reboot"),
        _ => panic!("reboot must be rejected"),
    }
    assert!(matches!(q.on_shell_request("mphelper play"), ShellAction::Run));
    assert!(matches!(q.on_shell_request(" /usr/sbin/tts_play.sh 'hi'"), ShellAction::Enqueue(0)));
    assert!(matches!(q.on_shell_request("/usr/sbin/tts_play.sh 'again'"), ShellAction::Enqueue(0)));
    assert_eq!(q.pending, 2);
    assert_eq!(q.generation, 0);
    // Stopping the media player interrupts speech.
    assert!(matches!(
        q.on_shell_request("ubus call mediaplayer player_play_operation '{\"action\":\"stop\"}'"),
        ShellAction::Run
    ));
    assert_eq!(q.generation, 1);
    assert_eq!(q.pending, 0);
    assert!(matches!(q.on_shell_request("/usr/sbin/tts_play.sh 'new'"), ShellAction::Enqueue(1)));
    assert_eq!(q.pending, 1);
}

#[test]
fn interrupted_speech_is_skipped_and_finishing_is_reported_once() {
    let mut q = TtsQueue::new();
    q.on_shell_request("/usr/sbin/tts_play.sh 'a'");
    q.on_shell_request("/usr/sbin/tts_play.sh 'b'");
    assert_eq!((q.generation, q.pending), (0, 2));
    assert!(q.on_dequeue(0));
    assert_eq!(q.on_played(), (2, false));
    assert!(q.on_dequeue(0));
    assert_eq!(q.on_played(), (1, true));
    assert_eq!(q.pending, 0);
    // A stop makes the older command stale.
    q.on_shell_request("/usr/sbin/tts_play.sh 'c'");
    q.on_shell_request("ubus call mediaplayer stop");
    assert!(!q.on_dequeue(0));
    // The count never goes below zero.
    assert_eq!(q.pending, 0);
    assert_eq!(q.on_played(), (0, false));
    assert_eq!(q.pending, 0);
}

#[test]
fn assistant_replies_are_recognised() {
    assert!(is_native_nlp_reply("{\"header\":{\"namespace\":\"Nlp\",\"name\":\"StartStream\"}}"));
    assert!(is_native_nlp_reply("x \"name\":\"Speak\" y \"namespace\":\"SpeechSynthesizer\""));
    assert!(!is_native_nlp_reply("{\"namespace\":\"Nlp\",\"name\":\"Other\"}"));
    assert!(!is_native_nlp_reply(""));
}

#[test]
fn retry_delay_doubles_up_to_a_minute() {
    assert_eq!(next_retry_delay(1), 2);
    assert_eq!(next_retry_delay(16), 32);
    assert_eq!(next_retry_delay(32), 60);
    assert_eq!(next_retry_delay(60), 60);
    assert_eq!(next_retry_delay(0), 0);
}

#[test]
fn clock_text_is_zero_padded() {
    let micros: u128 = (1 * 3600 + 2 * 60 + 3) * 1_000_000u128 + 4_999;
    assert_eq!(clock_string(micros), "01:02:03.004");
    assert_eq!(clock_string(0), "00:00:00.000");
    // Days wrap: 25 h is 01 h.
    assert_eq!(clock_string(25 * 3600 * 1_000_000 + 999_000), "01:00:00.999");
    let s = now_str();
    assert_eq!(s.len(), 12);
    assert_eq!(&s[2..3], ":");
    assert_eq!(&s[8..9], ".");
}

#[test]
fn kws_lines_parse_into_timestamp_and_keyword() {
    assert_eq!(parse_kws_line("1700000000@小爱同学"), Some((1700000000, "小爱同学".to_string())));
    assert_eq!(parse_kws_line("+7@k@z"), Some((7, "k".to_string())));
    assert_eq!(parse_kws_line("12@"), Some((12, "".to_string())));
    assert_eq!(parse_kws_line("no separator"), None);
    assert_eq!(parse_kws_line("abc@x"), None);
    assert_eq!(parse_kws_line("@x"), None);
    assert_eq!(parse_kws_line("-1@x"), None);
    assert_eq!(parse_kws_line("18446744073709551616@x"), None);
    assert_eq!(parse_kws_line("18446744073709551615@x"), Some((u64::MAX, "x".to_string())));
}

#[test]
fn kws_monitor_reports_each_new_timestamp_once() {
    let mut m = KwsMonitor::new();
    assert!(matches!(m.on_entry(5, "__STARTED__".to_string()), Some(KwsMonitorEvent::Started)));
    assert!(m.on_entry(5, "again".to_string()).is_none());
    match m.on_entry(6, "天猫精灵".to_string()) {
        Some(KwsMonitorEvent::Keyword(k)) => assert_eq!(k, "天猫精灵"),
        _ => panic!("expected a keyword"),
    }
    // A first line stamped 0 is taken as already seen.
    let mut fresh = KwsMonitor::new();
    assert!(fresh.on_entry(0, "x".to_string()).is_none());
}

#[test]
fn instruction_monitor_watches_the_instruction_log() {
    let m = InstructionMonitor::new();
    assert_eq!(m.path(), INSTRUCTION_FILE_PATH);
    assert_eq!(INSTRUCTION_FILE_PATH, "/tmp/mico_aivs_lab/instruction.log");
}

#[test]
fn speaker_scripts_fill_their_placeholder() {
    assert_eq!(
        SpeakerManager::set_boot_script("boot1"),
        "\n            fw_env -s boot_part boot1 >/dev/null 2>&1 && echo $(fw_env -g boot_part)\n        "
    );
    assert_eq!(
        SpeakerManager::play_text_script("你好"),
        "\n            /usr/sbin/tts_play.sh '你好'\n        "
    );
    assert_eq!(
        SpeakerManager::play_url_script("http://a/b.mp3"),
        "\n            ubus call mediaplayer player_play_url '{\"url\":\"http://a/b.mp3\",\"type\": 1}'\n        "
    );
    assert_eq!(
        SpeakerManager::ask_xiaoai_script("%s"),
        "\n            ubus call mibrain ai_service '{\"tts\":1,\"nlp\":1,\"nlp_text\":\"%s\"}'\n        "
    );
    assert_eq!(SpeakerManager::wake_up_script(true), WAKE_UP_SCRIPT);
    assert_eq!(SpeakerManager::wake_up_script(false), WAKE_DOWN_SCRIPT);
    assert!(ABORT_SCRIPT.contains("\"action\":\"stop\""));
}

#[test]
fn speaker_outputs_are_read() {
    assert_eq!(SpeakerManager::printed_value("  boot0\n"), "boot0");
    assert!(SpeakerManager::boot_set("boot1\n", "boot1"));
    assert!(!SpeakerManager::boot_set("boot0\n", "boot1"));
    assert_eq!(SpeakerManager::play_status_from("1"), "playing");
    assert_eq!(SpeakerManager::play_status_from("2 1"), "playing");
    assert_eq!(SpeakerManager::play_status_from("2"), "paused");
    assert_eq!(SpeakerManager::play_status_from("0"), "idle");
    assert_eq!(SpeakerManager::mic_status_from("on\n"), "on");
    assert_eq!(SpeakerManager::mic_status_from("off\n"), "off");
    assert!(SpeakerManager::succeeded("{\"code\": 0}"));
    assert!(!SpeakerManager::succeeded("{\"code\":0}"));
    assert!(SpeakerManager::bus_succeeded("{\"code\":0}"));
    assert!(!SpeakerManager::bus_succeeded("{\"code\": 0}"));
}

#[test]
fn microphone_scripts_are_off_the_whitelist() {
    // `ubus -t1 -S call pnshelper` does not begin with `ubus call pnshelper`.
    assert!(!is_shell_allowed(MIC_ON_SCRIPT));
    assert!(!is_shell_allowed(MIC_OFF_SCRIPT));
    assert!(!is_shell_allowed("ubus -t1 -S call pnshelper"));
    assert!(is_shell_allowed("ubus call pnshelper event_notify '{}'"));
}

#[test]
fn appending_to_an_allowed_script_keeps_it_allowed() {
    assert!(is_shell_allowed("  mphelper"));
    assert!(is_shell_allowed("mphelper; echo done  "));
    assert!(!is_shell_allowed("echo done; mphelper"));
}

#[test]
fn keyword_lines_become_events_once_per_timestamp() {
    let mut m = KwsMonitor::new();
    assert!(matches!(m.on_line("7@__STARTED__"), Some(KwsMonitorEvent::Started)));
    // A repeat of the last timestamp gives nothing.
    assert!(m.on_line("7@hello").is_none());
    match m.on_line("8@hello@extra") {
        Some(KwsMonitorEvent::Keyword(k)) => assert_eq!(k, "hello"),
        _ => panic!("expected a keyword"),
    }
}

#[test]
fn blocked_replies_stop_playback_before_forwarding() {
    let reply = "{\"namespace\":\"SpeechSynthesizer\",\"name\":\"Speak\"}";
    assert_eq!(
        instruction_line_actions(true, reply),
        vec![InstructionAction::StopPlayback, InstructionAction::Forward]
    );
    assert_eq!(instruction_line_actions(false, reply), vec![InstructionAction::Forward]);
    assert_eq!(instruction_line_actions(true, "{\"name\":\"Other\"}"), vec![InstructionAction::Forward]);
    assert!(is_shell_allowed(STOP_PLAYBACK_SCRIPT));
}

#[test]
fn retry_waits_double_to_a_minute_and_reset_on_success() {
    let mut b = RetryBackoff::new();
    let waits: Vec<u64> = (0..9).map(|_| b.on_failure()).collect();
    assert_eq!(waits, vec![1, 2, 4, 8, 16, 32, 60, 60, 60]);
    b.on_success();
    assert_eq!(b.on_failure(), 1);
    assert_eq!(b.on_failure(), 2);
}
