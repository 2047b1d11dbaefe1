use xiaoai::client::audio_config::{aplay_args, arecord_args, AudioConfig};
use xiaoai::client::wakeup::{listed_reply_lines, reply_script, tts_script, wakeup_replies, WAKEUP_SOUND_EI, WAKEUP_SOUND_ZAI};

#[test]
fn player_and_recorder_arguments() {
    let c = AudioConfig {
        pcm: "default".to_string(),
        channels: 2,
        bits_per_sample: 32,
        sample_rate: 48000,
        period_size: 160,
        buffer_size: 480,
    };
    assert_eq!(
        aplay_args(&c),
        vec![
            "--quiet", "-t", "raw", "-f", "S32_LE", "-r", "48000", "-c", "2", "--buffer-size", "480",
            "--period-size", "160", "-"
        ]
    );
    assert_eq!(
        arecord_args(&c),
        vec![
            "--quiet", "-t", "raw", "-D", "default", "-f", "S32_LE", "-r", "48000", "-c", "2",
            "--buffer-size", "480", "--period-size", "160"
        ]
    );
}

#[test]
fn reply_file_lines_skip_blank_ones() {
    assert_eq!(listed_reply_lines("a\n\n  \nb c\n"), vec!["a", "b c"]);
    assert_eq!(listed_reply_lines(""), Vec::<String>::new());
    assert_eq!(listed_reply_lines(" x \ny"), vec![" x ", "y"]);
}

#[test]
fn replies_fall_back_to_default_sounds() {
    assert_eq!(wakeup_replies(None), vec![WAKEUP_SOUND_EI, WAKEUP_SOUND_ZAI]);
    assert_eq!(wakeup_replies(Some("\n \n")), vec![WAKEUP_SOUND_EI, WAKEUP_SOUND_ZAI]);
    assert_eq!(wakeup_replies(Some("主人你好\n")), vec!["主人你好"]);
}

#[test]
fn replies_are_played_or_spoken() {
    assert_eq!(reply_script("https://example.com/a.wav"), "miplayer -f 'https://example.com/a.wav'");
    assert_eq!(reply_script("在呢"), "/usr/sbin/tts_play.sh '在呢'");
    assert_eq!(tts_script("自定义唤醒词已开启"), "/usr/sbin/tts_play.sh '自定义唤醒词已开启'");
}
