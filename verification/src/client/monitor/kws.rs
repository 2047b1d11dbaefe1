//! The keyword-spotting log: each line is `timestamp@keyword`, and a line with
//! a new timestamp becomes one event.
use vstd::prelude::*;
use vstd::string::*;

use crate::text::{chars_of, find_char_from, find_from, lemma_find_from_first, parse_u64, parsed_u64};

verus! {

/// The log that the keyword spotter writes.
pub const KWS_FILE_PATH: &'static str = "/tmp/open-xiaoai/kws.log";

/// The keyword the spotter logs when it has started.
pub const KWS_STARTED_KEYWORD: &'static str = "__STARTED__";

/// What the keyword spotter reports.
#[derive(Debug)]
pub enum KwsMonitorEvent {
    /// The spotter has started.
    Started,
    /// A keyword was heard.
    Keyword(String),
}

/// The first two `@`-separated fields of a line, or `None` when it has no `@`.
pub open spec fn kws_fields(line: Seq<char>) -> Option<(Seq<char>, Seq<char>)> {
    let first = find_from(line, '@', 0);
    if first == line.len() {
        None
    } else {
        Some((line.take(first), line.subrange(first + 1, find_from(line, '@', first + 1))))
    }
}

/// The timestamp and keyword of a log line: its first field read as a `u64`
/// and its second field; `None` when either is missing or the timestamp does
/// not parse.
pub open spec fn kws_entry(line: Seq<char>) -> Option<(u64, Seq<char>)> {
    match kws_fields(line) {
        Some((stamp, keyword)) => match parsed_u64(stamp) {
            Some(t) => Some((t, keyword)),
            None => None,
        },
        None => None,
    }
}

/// A line `stamp@keyword`, or `stamp@keyword@rest`, where neither the stamp
/// nor the keyword holds `@`, reads as the stamp's number and the whole keyword,
/// whatever else the keyword holds (spaces included): the keyword ends only at
/// the next `@` or at the end of the line.
pub proof fn lemma_keyword_is_whole_second_field(
    stamp: Seq<char>,
    keyword: Seq<char>,
    rest: Option<Seq<char>>,
    t: u64,
)
    requires
        !stamp.contains('@'),
        !keyword.contains('@'),
        parsed_u64(stamp) == Some(t),
    ensures
        kws_entry(
            match rest {
                Some(r) => stamp + "@"@ + keyword + "@"@ + r,
                None => stamp + "@"@ + keyword,
            },
        ) == Some((t, keyword)),
{
    reveal_strlit("@");
    let line = match rest {
        Some(r) => stamp + "@"@ + keyword + "@"@ + r,
        None => stamp + "@"@ + keyword,
    };
    let n = stamp.len() as int;
    let m = n + 1 + keyword.len();
    assert forall|j: int| 0 <= j < n implies line[j] != '@' by {
        assert(line[j] == stamp[j]);
        if stamp[j] == '@' {
            assert(stamp.contains('@'));
        }
    }
    assert(line[n] == '@');
    lemma_find_from_first(line, '@', 0, n);
    assert forall|j: int| n + 1 <= j < m implies line[j] != '@' by {
        assert(line[j] == keyword[j - n - 1]);
        if keyword[j - n - 1] == '@' {
            assert(keyword.contains('@'));
        }
    }
    if rest is Some {
        assert(line[m] == '@');
    } else {
        assert(m == line.len());
    }
    lemma_find_from_first(line, '@', n + 1, m);
    assert(line.take(n) =~= stamp);
    assert(line.subrange(n + 1, m) =~= keyword);
}

/// Reads a log line as its timestamp and keyword.
pub fn parse_kws_line(line: &str) -> (r: Option<(u64, String)>)
    ensures
        r matches Some((t, k)) ==> kws_entry(line@) == Some((t, k@)),
        r is None ==> kws_entry(line@) is None,
{
    let c = chars_of(line);
    let first = find_char_from(&c, '@', 0);
    if first == c.len() {
        return None;
    }
    let second = find_char_from(&c, '@', first + 1);
    let stamp = line.substring_char(0, first);
    assert(stamp@ =~= line@.take(first as int));
    match parse_u64(stamp) {
        Some(t) => {
            let keyword = String::from_str(line.substring_char(first + 1, second));
            Some((t, keyword))
        },
        None => None,
    }
}

/// Turns keyword-spotter log lines into events, one per new timestamp.
pub struct KwsMonitor {
    last_timestamp: u64,
}

impl KwsMonitor {
    /// The timestamp of the last line that became an event (0 at first).
    pub closed spec fn last_timestamp(&self) -> u64 {
        self.last_timestamp
    }

    /// A monitor that has seen no line.
    pub fn new() -> (r: Self)
        ensures
            r.last_timestamp() == 0,
    {
        KwsMonitor { last_timestamp: 0 }
    }

    /// The event of a log entry: none when its timestamp is that of the last
    /// event; otherwise `Started` for the start keyword and `Keyword` for any
    /// other, and the timestamp becomes the last one.
    pub fn on_entry(&mut self, timestamp: u64, keyword: String) -> (r: Option<KwsMonitorEvent>)
        ensures
            timestamp == old(self).last_timestamp() ==> r is None && final(self).last_timestamp()
                == old(self).last_timestamp(),
            timestamp != old(self).last_timestamp() ==> {
                &&& final(self).last_timestamp() == timestamp
                &&& r matches Some(e) && (if keyword@ == KWS_STARTED_KEYWORD@ {
                    e is Started
                } else {
                    e matches KwsMonitorEvent::Keyword(k) && k@ == keyword@
                })
            },
    {
        if timestamp == self.last_timestamp {
            return None;
        }
        self.last_timestamp = timestamp;
        let started = String::from_str(KWS_STARTED_KEYWORD);
        if keyword == started {
            Some(KwsMonitorEvent::Started)
        } else {
            Some(KwsMonitorEvent::Keyword(keyword))
        }
    }

    /// The event of a log line, which holds an `@` after a numeric timestamp:
    /// the line is handled as its entry (`on_entry`).
    pub fn on_line(&mut self, line: &str) -> (r: Option<KwsMonitorEvent>)
        requires
            kws_entry(line@) is Some,
        ensures
            kws_entry(line@) matches Some((timestamp, keyword)) ==> {
                &&& timestamp == old(self).last_timestamp() ==> r is None
                    && final(self).last_timestamp() == old(self).last_timestamp()
                &&& timestamp != old(self).last_timestamp() ==> {
                    &&& final(self).last_timestamp() == timestamp
                    &&& r matches Some(e) && (if keyword == KWS_STARTED_KEYWORD@ {
                        e is Started
                    } else {
                        e matches KwsMonitorEvent::Keyword(k) && k@ == keyword
                    })
                }
            },
    {
        match parse_kws_line(line) {
            Some((timestamp, keyword)) => self.on_entry(timestamp, keyword),
            None => None,
        }
    }
}

} // verus!
