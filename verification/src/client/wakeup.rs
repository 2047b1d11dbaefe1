//! What the keyword monitor plays when a keyword is heard: a reply chosen
//! from the configured replies, played as a sound when it is a URL and spoken
//! otherwise.
use vstd::prelude::*;
use vstd::string::*;

use crate::client::audio_config::string_views;
use crate::text::{contains, has_substring, occurs_at, trim, trimmed};

verus! {

/// The file of custom replies, one per line.
pub const KWS_REPLY_FILE_PATH: &'static str = "/data/open-xiaoai/kws/reply.txt";

/// The first default reply sound.
pub const WAKEUP_SOUND_EI: &'static str = "file:///usr/share/sound-vendor/AiNiRobot/wakeup_ei_01.wav";

/// The second default reply sound.
pub const WAKEUP_SOUND_ZAI: &'static str = "file:///usr/share/sound-vendor/AiNiRobot/wakeup_zai_01.wav";

/// The bus call that wakes the assistant after the reply.
pub const WAKE_COMMAND: &'static str = "ubus call pnshelper event_notify '{\"src\":1,\"event\":0}'";

/// The pieces of `s` between newlines, as `str::split('\n')` gives them.
pub open spec fn lines(s: Seq<char>) -> Seq<Seq<char>>
    decreases s.len(),
{
    if s.len() == 0 {
        seq![Seq::<char>::empty()]
    } else {
        let prev = lines(s.drop_last());
        if s.last() == '\n' {
            prev.push(Seq::<char>::empty())
        } else {
            prev.update(prev.len() - 1, prev.last().push(s.last()))
        }
    }
}

proof fn lemma_lines_nonempty(s: Seq<char>)
    ensures
        lines(s).len() >= 1,
    decreases s.len(),
{
    if s.len() > 0 {
        lemma_lines_nonempty(s.drop_last());
    }
}

/// Whether a line holds more than white space.
pub open spec fn non_blank(line: Seq<char>) -> bool {
    trimmed(line).len() > 0
}

/// The replies a file lists: its lines that hold more than white space.
pub open spec fn listed_replies(content: Seq<char>) -> Seq<Seq<char>> {
    lines(content).filter(|l: Seq<char>| non_blank(l))
}

/// The replies to choose from: those the reply file lists when it exists and
/// lists any, otherwise the two default sounds.
pub open spec fn reply_choices(content: Option<Seq<char>>) -> Seq<Seq<char>> {
    match content {
        Some(c) if listed_replies(c).len() > 0 => listed_replies(c),
        _ => seq![WAKEUP_SOUND_EI@, WAKEUP_SOUND_ZAI@],
    }
}

/// The lines of a reply file that hold more than white space, in order.
pub fn listed_reply_lines(content: &str) -> (r: Vec<String>)
    ensures
        string_views(r@) == listed_replies(content@),
{
    let c = crate::text::chars_of(content);
    let n = c.len();
    let mut out: Vec<String> = Vec::new();
    let mut start: usize = 0;
    let mut i: usize = 0;
    let ghost pred = |l: Seq<char>| non_blank(l);
    proof {
        assert(content@.take(0) =~= Seq::<char>::empty());
        assert(content@.subrange(0, 0) =~= Seq::<char>::empty());
    }
    while i < n
        invariant
            c@ == content@,
            n == content@.len(),
            start <= i <= n,
            pred == (|l: Seq<char>| non_blank(l)),
            lines(content@.take(i as int)).len() >= 1,
            lines(content@.take(i as int)).last() == content@.subrange(start as int, i as int),
            string_views(out@) == lines(content@.take(i as int)).drop_last().filter(pred),
        decreases n - i,
    {
        let ghost t = content@.take(i as int);
        let ghost t1 = content@.take(i + 1);
        proof {
            assert(t1.drop_last() =~= t);
            assert(t1.last() == content@[i as int]);
            lemma_lines_nonempty(t);
        }
        if c[i] == '\n' {
            let seg = content.substring_char(start, i);
            proof {
                assert(lines(t1) == lines(t).push(Seq::<char>::empty()));
                assert(lines(t1).drop_last() =~= lines(t));
                assert(lines(t) =~= lines(t).drop_last().push(seg@));
                lines(t).drop_last().lemma_filter_push(seg@, pred);
            }
            let trimmed_seg = trim(seg);
            if trimmed_seg.unicode_len() > 0 {
                let ghost before = out@;
                out.push(String::from_str(seg));
                assert(string_views(out@) =~= string_views(before).push(seg@));
            }
            start = i + 1;
            i = i + 1;
            assert(content@.subrange(start as int, i as int) =~= Seq::<char>::empty());
        } else {
            proof {
                assert(lines(t1) == lines(t).update(lines(t).len() - 1, lines(t).last().push(content@[i as int])));
                assert(lines(t1).drop_last() =~= lines(t).drop_last());
                assert(content@.subrange(start as int, i + 1) =~= content@.subrange(start as int, i as int).push(content@[i as int]));
            }
            i = i + 1;
        }
    }
    let last = content.substring_char(start, n);
    proof {
        assert(content@.take(n as int) =~= content@);
        assert(lines(content@) =~= lines(content@).drop_last().push(last@));
        lines(content@).drop_last().lemma_filter_push(last@, pred);
    }
    let trimmed_last = trim(last);
    if trimmed_last.unicode_len() > 0 {
        let ghost before = out@;
        out.push(String::from_str(last));
        assert(string_views(out@) =~= string_views(before).push(last@));
    }
    out
}

/// The replies to choose from, given the reply file's content when it exists.
pub fn wakeup_replies(content: Option<&str>) -> (r: Vec<String>)
    ensures
        string_views(r@) == reply_choices(
            match content {
                Some(c) => Some(c@),
                None => None,
            },
        ),
{
    if let Some(text) = content {
        let listed = listed_reply_lines(text);
        if listed.len() > 0 {
            return listed;
        }
    }
    let mut v: Vec<String> = Vec::new();
    v.push(String::from_str(WAKEUP_SOUND_EI));
    v.push(String::from_str(WAKEUP_SOUND_ZAI));
    assert(string_views(v@) =~= seq![WAKEUP_SOUND_EI@, WAKEUP_SOUND_ZAI@]);
    v
}

/// The script that speaks `text`.
pub open spec fn speech_script(text: Seq<char>) -> Seq<char> {
    "/usr/sbin/tts_play.sh '"@ + text + "'"@
}

/// The script that plays a reply: a URL (it holds `://`) through the media
/// player, anything else as speech.
pub open spec fn reply_script_text(reply: Seq<char>) -> Seq<char> {
    if has_substring(reply, "://"@) {
        "miplayer -f '"@ + reply + "'"@
    } else {
        speech_script(reply)
    }
}

/// The script that speaks `text`.
pub fn tts_script(text: &str) -> (r: String)
    ensures
        r@ == speech_script(text@),
{
    let mut s = String::from_str("/usr/sbin/tts_play.sh '");
    s.append(text);
    s.append("'");
    s
}

/// The script that plays a reply.
pub fn reply_script(reply: &str) -> (r: String)
    ensures
        r@ == reply_script_text(reply@),
{
    if contains(reply, "://") {
        let mut s = String::from_str("miplayer -f '");
        s.append(reply);
        s.append("'");
        s
    } else {
        tts_script(reply)
    }
}

/// A reply that holds `://` anywhere (a `file://` or `https://` URL) is played
/// by the media player, as `miplayer -f '<reply>'`; any other reply is spoken,
/// as `/usr/sbin/tts_play.sh '<reply>'`.
pub proof fn lemma_urls_are_played_and_text_is_spoken(reply: Seq<char>, at: int)
    ensures
        0 <= at && at + 3 <= reply.len() && reply.subrange(at, at + 3) == seq![':', '/', '/']
            ==> reply_script_text(reply) == "miplayer -f '"@ + reply + "'"@,
        (forall|i: int| 0 <= i && i + 3 <= reply.len() ==> #[trigger] reply.subrange(i, i + 3) != seq![':', '/', '/'])
            ==> reply_script_text(reply) == "/usr/sbin/tts_play.sh '"@ + reply + "'"@,
{
    reveal_strlit("://");
    if 0 <= at && at + 3 <= reply.len() && reply.subrange(at, at + 3) == seq![':', '/', '/'] {
        assert("://"@ =~= seq![':', '/', '/']);
        assert(occurs_at(reply, "://"@, at));
    }
    if forall|i: int| 0 <= i && i + 3 <= reply.len() ==> #[trigger] reply.subrange(i, i + 3) != seq![':', '/', '/'] {
        assert("://"@ =~= seq![':', '/', '/']);
        assert forall|i: int| !occurs_at(reply, "://"@, i) by {
            if 0 <= i && i + 3 <= reply.len() {
                assert(reply.subrange(i, i + 3) != seq![':', '/', '/']);
            }
        }
    }
}

/// The two default replies are sounds, and are played rather than spoken.
pub proof fn lemma_default_sounds_are_played()
    ensures
        reply_script_text(WAKEUP_SOUND_EI@) == "miplayer -f '"@ + WAKEUP_SOUND_EI@ + "'"@,
        reply_script_text(WAKEUP_SOUND_ZAI@) == "miplayer -f '"@ + WAKEUP_SOUND_ZAI@ + "'"@,
{
    reveal_strlit("file:///usr/share/sound-vendor/AiNiRobot/wakeup_ei_01.wav");
    reveal_strlit("file:///usr/share/sound-vendor/AiNiRobot/wakeup_zai_01.wav");
    let ei = WAKEUP_SOUND_EI@;
    let zai = WAKEUP_SOUND_ZAI@;
    assert(ei.subrange(4, 7) =~= seq![':', '/', '/']);
    lemma_urls_are_played_and_text_is_spoken(ei, 4);
    assert(zai.subrange(4, 7) =~= seq![':', '/', '/']);
    lemma_urls_are_played_and_text_is_spoken(zai, 4);
}

} // verus!
