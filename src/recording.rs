//! The recording file: a JSON header line, then one JSON array per event.
use vstd::prelude::*;

use crate::event::{events_view, Event, EventType, EventView};
use crate::json::{
    decimal, json_string, members, object, push_decimal, push_json_string, push_seconds,
    seconds_text,
};
use crate::text::{owned, push_char};
use crate::timeline::{
    assemble_checked, lemma_sum_times_prefix_monotonic, lemma_timeline_conserves_time, sum_times,
    timeline, total_time, Events,
};

verus! {

/// The format version a recording declares.
pub const VERSION: u64 = 2;

/// The first line of a recording.
#[derive(Debug)]
pub struct Header {
    pub width: u16,
    pub height: u16,
    /// When the recording was made, in seconds since the Unix epoch.
    pub timestamp: Option<u64>,
    /// How long the recording lasts, in microseconds.
    pub duration: Option<u64>,
    /// The longest pause a player should show, in microseconds.
    pub idle_time_limit: Option<u64>,
    pub command: Option<String>,
    pub title: Option<String>,
    /// Environment variables, each name once, in the order they were set.
    pub env: Vec<(String, String)>,
}

/// A whole recording.
#[derive(Debug)]
pub struct File {
    pub header: Header,
    pub events: Vec<Event>,
}

pub open spec fn version_key() -> Seq<char> {
    seq!['v', 'e', 'r', 's', 'i', 'o', 'n']
}

pub open spec fn width_key() -> Seq<char> {
    seq!['w', 'i', 'd', 't', 'h']
}

pub open spec fn height_key() -> Seq<char> {
    seq!['h', 'e', 'i', 'g', 'h', 't']
}

pub open spec fn timestamp_key() -> Seq<char> {
    seq!['t', 'i', 'm', 'e', 's', 't', 'a', 'm', 'p']
}

pub open spec fn duration_key() -> Seq<char> {
    seq!['d', 'u', 'r', 'a', 't', 'i', 'o', 'n']
}

pub open spec fn idle_time_limit_key() -> Seq<char> {
    seq!['i', 'd', 'l', 'e', '_', 't', 'i', 'm', 'e', '_', 'l', 'i', 'm', 'i', 't']
}

pub open spec fn command_key() -> Seq<char> {
    seq!['c', 'o', 'm', 'm', 'a', 'n', 'd']
}

pub open spec fn title_key() -> Seq<char> {
    seq!['t', 'i', 't', 'l', 'e']
}

pub open spec fn env_key() -> Seq<char> {
    seq!['e', 'n', 'v']
}

/// The member of an optional integer field: none when the field is absent.
pub open spec fn opt_decimal(key: Seq<char>, value: Option<u64>) -> Seq<(Seq<char>, Seq<char>)> {
    match value {
        Some(v) => seq![(key, decimal(v as nat))],
        None => Seq::empty(),
    }
}

/// The member of an optional time field: none when the field is absent.
pub open spec fn opt_seconds(key: Seq<char>, value: Option<u64>) -> Seq<(Seq<char>, Seq<char>)> {
    match value {
        Some(v) => seq![(key, seconds_text(v as nat))],
        None => Seq::empty(),
    }
}

/// The member of an optional string field: none when the field is absent.
pub open spec fn opt_string(key: Seq<char>, value: Option<String>) -> Seq<(Seq<char>, Seq<char>)> {
    match value {
        Some(v) => seq![(key, json_string(v@))],
        None => Seq::empty(),
    }
}

/// The members of the `env` object: each name with its value quoted.
pub open spec fn env_fields(env: Seq<(String, String)>) -> Seq<(Seq<char>, Seq<char>)> {
    env.map_values(|p: (String, String)| (p.0@, json_string(p.1@)))
}

impl Header {
    /// The header's members, in the order the format fixes. Absent fields, and
    /// an empty `env`, have no member at all.
    pub open spec fn fields(&self) -> Seq<(Seq<char>, Seq<char>)> {
        seq![
            (version_key(), decimal(VERSION as nat)),
            (width_key(), decimal(self.width as nat)),
            (height_key(), decimal(self.height as nat)),
        ] + opt_decimal(timestamp_key(), self.timestamp) + opt_seconds(
            duration_key(),
            self.duration,
        ) + opt_seconds(idle_time_limit_key(), self.idle_time_limit) + opt_string(
            command_key(),
            self.command,
        ) + opt_string(title_key(), self.title) + if self.env@.len() == 0 {
            Seq::empty()
        } else {
            seq![(env_key(), object(env_fields(self.env@)))]
        }
    }

    pub open spec fn json_spec(&self) -> Seq<char> {
        object(self.fields())
    }

    /// The header's members, with their values written out.
    fn field_strings(&self) -> (r: Vec<(String, String)>)
        ensures
            pairs_view(r@) == self.fields(),
    {
        let mut r: Vec<(String, String)> = Vec::new();
        r.push((key_string("version"), decimal_string(VERSION)));
        r.push((key_string("width"), decimal_string(self.width as u64)));
        r.push((key_string("height"), decimal_string(self.height as u64)));
        proof {
            reveal_strlit("version");
            assert(version_key() =~= "version"@);
            reveal_strlit("width");
            assert(width_key() =~= "width"@);
            reveal_strlit("height");
            assert(height_key() =~= "height"@);
        }
        let ghost base = seq![
            (version_key(), decimal(VERSION as nat)),
            (width_key(), decimal(self.width as nat)),
            (height_key(), decimal(self.height as nat)),
        ];
        assert(pairs_view(r@) =~= base);
        if let Some(t) = self.timestamp {
            r.push((key_string("timestamp"), decimal_string(t)));
            proof {
                reveal_strlit("timestamp");
            assert(timestamp_key() =~= "timestamp"@);
            }
        }
        let ghost f1 = base + opt_decimal(timestamp_key(), self.timestamp);
        assert(pairs_view(r@) =~= f1);
        if let Some(d) = self.duration {
            r.push((key_string("duration"), seconds_string(d)));
            proof {
                reveal_strlit("duration");
            assert(duration_key() =~= "duration"@);
            }
        }
        let ghost f2 = f1 + opt_seconds(duration_key(), self.duration);
        assert(pairs_view(r@) =~= f2);
        if let Some(d) = self.idle_time_limit {
            r.push((key_string("idle_time_limit"), seconds_string(d)));
            proof {
                reveal_strlit("idle_time_limit");
            assert(idle_time_limit_key() =~= "idle_time_limit"@);
            }
        }
        let ghost f3 = f2 + opt_seconds(idle_time_limit_key(), self.idle_time_limit);
        assert(pairs_view(r@) =~= f3);
        if let Some(c) = &self.command {
            r.push((key_string("command"), json_string_of(c.as_str())));
            proof {
                reveal_strlit("command");
            assert(command_key() =~= "command"@);
            }
        }
        let ghost f4 = f3 + opt_string(command_key(), self.command);
        assert(pairs_view(r@) =~= f4);
        if let Some(t) = &self.title {
            r.push((key_string("title"), json_string_of(t.as_str())));
            proof {
                reveal_strlit("title");
            assert(title_key() =~= "title"@);
            }
        }
        let ghost f5 = f4 + opt_string(title_key(), self.title);
        assert(pairs_view(r@) =~= f5);
        if self.env.len() > 0 {
            let mut env_fields_exec: Vec<(String, String)> = Vec::new();
            let mut i: usize = 0;
            while i < self.env.len()
                invariant
                    i <= self.env@.len(),
                    pairs_view(env_fields_exec@) == env_fields(self.env@).subrange(0, i as int),
                decreases self.env@.len() - i,
            {
                let ghost before = env_fields_exec@;
                env_fields_exec.push(
                    (owned(self.env[i].0.as_str()), json_string_of(self.env[i].1.as_str())),
                );
                assert(env_fields_exec@ == before.push(env_fields_exec@.last()));
                assert(pairs_view(env_fields_exec@) =~= pairs_view(before).push(
                    env_fields(self.env@)[i as int],
                ));
                assert(env_fields(self.env@).subrange(0, i + 1) =~= env_fields(self.env@).subrange(
                    0,
                    i as int,
                ).push(env_fields(self.env@)[i as int]));
                i += 1;
            }
            assert(env_fields(self.env@).subrange(0, i as int) =~= env_fields(self.env@));
            let mut env_text = String::new();
            push_object(&mut env_text, &env_fields_exec);
            r.push((key_string("env"), env_text));
            proof {
                reveal_strlit("env");
            assert(env_key() =~= "env"@);
            }
        }
        assert(pairs_view(r@) =~= self.fields());
        r
    }

    /// The header as one line of JSON.
    pub fn to_json(&self) -> (r: String)
        ensures
            r@ == self.json_spec(),
    {
        let fields = self.field_strings();
        let mut out = String::new();
        push_object(&mut out, &fields);
        assert(out@ =~= self.json_spec());
        out
    }
}

/// The views of a list of string pairs.
pub open spec fn pairs_view(v: Seq<(String, String)>) -> Seq<(Seq<char>, Seq<char>)> {
    v.map_values(|p: (String, String)| (p.0@, p.1@))
}

fn key_string(key: &str) -> (r: String)
    ensures
        r@ == key@,
{
    owned(key)
}

fn decimal_string(n: u64) -> (r: String)
    ensures
        r@ == decimal(n as nat),
{
    let mut r = String::new();
    push_decimal(&mut r, n);
    assert(r@ =~= decimal(n as nat));
    r
}

fn seconds_string(micros: u64) -> (r: String)
    ensures
        r@ == seconds_text(micros as nat),
{
    let mut r = String::new();
    push_seconds(&mut r, micros);
    assert(r@ =~= seconds_text(micros as nat));
    r
}

fn json_string_of(s: &str) -> (r: String)
    ensures
        r@ == json_string(s@),
{
    let mut r = String::new();
    push_json_string(&mut r, s);
    assert(r@ =~= json_string(s@));
    r
}

/// Appends a JSON object whose members are the given keys and written values.
pub fn push_object(out: &mut String, fields: &Vec<(String, String)>)
    ensures
        final(out)@ == old(out)@ + object(pairs_view(fields@)),
{
    let ghost fv = pairs_view(fields@);
    push_char(out, '{');
    let mut i: usize = 0;
    while i < fields.len()
        invariant
            i <= fields@.len(),
            fv == pairs_view(fields@),
            out@ == old(out)@ + seq!['{'] + members(fv, i as int),
        decreases fields@.len() - i,
    {
        push_field_key(out, i, fields[i].0.as_str());
        out.append(fields[i].1.as_str());
        assert(out@ =~= old(out)@ + seq!['{'] + members(fv, i + 1));
        i += 1;
    }
    push_char(out, '}');
    assert(out@ =~= old(out)@ + object(fv));
}

/// The text an event type is written as.
pub open spec fn type_text(t: EventType) -> Seq<char> {
    match t {
        EventType::Input => seq!['i'],
        EventType::Output => seq!['o'],
        EventType::Marker => seq!['m'],
    }
}

/// An event as a JSON array: its delay in seconds, its type and its data.
pub open spec fn event_line(e: EventView) -> Seq<char> {
    seq!['['] + seconds_text(e.time as nat) + seq![',', ' '] + json_string(type_text(e.event_type))
        + seq![',', ' '] + json_string(e.data) + seq![']']
}

/// The lines of the first `k` events, each ended by a line feed.
pub open spec fn event_lines(s: Seq<EventView>, k: int) -> Seq<char>
    decreases k,
{
    if k <= 0 {
        Seq::empty()
    } else {
        event_lines(s, k - 1) + event_line(s[k - 1]) + seq!['\n']
    }
}

impl EventType {
    pub fn text(&self) -> (r: &'static str)
        ensures
            r@ == type_text(*self),
    {
        proof {
            reveal_strlit("i");
            reveal_strlit("o");
            reveal_strlit("m");
        }
        match self {
            EventType::Input => {
                assert("i"@ =~= seq!['i']);
                "i"
            },
            EventType::Output => {
                assert("o"@ =~= seq!['o']);
                "o"
            },
            EventType::Marker => {
                assert("m"@ =~= seq!['m']);
                "m"
            },
        }
    }
}

impl Event {
    /// The event as one line of JSON.
    pub fn to_json(&self) -> (r: String)
        ensures
            r@ == event_line(self@),
    {
        let mut out = String::new();
        push_char(&mut out, '[');
        push_seconds(&mut out, self.time);
        push_char(&mut out, ',');
        push_char(&mut out, ' ');
        push_json_string(&mut out, self.event_type.text());
        push_char(&mut out, ',');
        push_char(&mut out, ' ');
        push_json_string(&mut out, self.data.as_str());
        push_char(&mut out, ']');
        assert(out@ =~= event_line(self@));
        out
    }
}

impl File {
    /// The whole recording as text: the header line, then one line per event.
    pub open spec fn text_spec(&self) -> Seq<char> {
        self.header.json_spec() + seq!['\n'] + event_lines(
            events_view(self.events@),
            self.events@.len() as int,
        )
    }

    /// A recording of `events`, whose header gives their total time as its
    /// duration.
    pub fn new(
        width: u16,
        height: u16,
        timestamp: Option<u64>,
        title: Option<String>,
        env: Vec<(String, String)>,
        events: Vec<Event>,
    ) -> (r: File)
        requires
            sum_times(events_view(events@)) <= u64::MAX,
        ensures
            r.header.width == width,
            r.header.height == height,
            r.header.timestamp == timestamp,
            r.header.duration == Some(sum_times(events_view(events@)) as u64),
            r.header.idle_time_limit is None,
            r.header.command is None,
            r.header.title == title,
            r.header.env == env,
            r.events == events,
    {
        let ghost s = events_view(events@);
        let mut total: u64 = 0;
        let mut i: usize = 0;
        while i < events.len()
            invariant
                i <= events@.len(),
                s == events_view(events@),
                sum_times(s) <= u64::MAX,
                total as nat == sum_times(s.take(i as int)),
            decreases events@.len() - i,
        {
            proof {
                lemma_sum_times_prefix_monotonic(s, i + 1, s.len() as int);
                assert(s.take(s.len() as int) =~= s);
                assert(s.take(i + 1).drop_last() =~= s.take(i as int));
            }
            total = total + events[i].time;
            i += 1;
        }
        assert(s.take(i as int) =~= s);
        File {
            header: Header {
                width,
                height,
                timestamp,
                duration: Some(total),
                idle_time_limit: None,
                command: None,
                title,
                env,
            },
            events,
        }
    }

    /// The recording of a script's fragments (see `assemble`), whose header
    /// gives its total time as its duration; `None` where that time exceeds
    /// `u64::MAX` microseconds.
    pub fn from_fragments(
        width: u16,
        height: u16,
        timestamp: Option<u64>,
        title: Option<String>,
        env: Vec<(String, String)>,
        fragments: &Vec<Events>,
        prompt: &str,
        type_speed: u64,
    ) -> (r: Option<File>)
        ensures
            r is Some <==> total_time(fragments@, fragments@.len() as int) + type_speed
                <= u64::MAX,
            r matches Some(f) ==> {
                &&& events_view(f.events@) == timeline(prompt@, type_speed, fragments@)
                &&& f.header.duration == Some(
                    (total_time(fragments@, fragments@.len() as int) + type_speed) as u64,
                )
                &&& f.header.width == width
                &&& f.header.height == height
                &&& f.header.timestamp == timestamp
                &&& f.header.idle_time_limit is None
                &&& f.header.command is None
                &&& f.header.title == title
                &&& f.header.env == env
            },
    {
        match assemble_checked(fragments, prompt, type_speed) {
            Some(events) => {
                proof {
                    lemma_timeline_conserves_time(prompt@, type_speed, fragments@);
                }
                Some(File::new(width, height, timestamp, title, env, events))
            },
            None => None,
        }
    }

    /// The whole recording as text: the header line, then one line per event.
    pub fn to_text(&self) -> (r: String)
        ensures
            r@ == self.text_spec(),
    {
        let mut out = self.header.to_json();
        push_char(&mut out, '\n');
        let ghost s = events_view(self.events@);
        let ghost head = out@;
        let mut i: usize = 0;
        while i < self.events.len()
            invariant
                i <= self.events@.len(),
                s == events_view(self.events@),
                out@ == head + event_lines(s, i as int),
            decreases self.events@.len() - i,
        {
            let line = self.events[i].to_json();
            out.append(line.as_str());
            push_char(&mut out, '\n');
            assert(out@ =~= head + event_lines(s, i + 1));
            i += 1;
        }
        out
    }
}

/// A header without a title has no `title` member at all, and one with a title
/// has it exactly once, holding the title quoted.
pub proof fn lemma_header_title_member(h: Header)
    ensures
        h.title is None ==> forall|i: int|
            0 <= i < h.fields().len() ==> (#[trigger] h.fields()[i]).0 != title_key(),
        h.title is Some ==> exists|i: int|
            0 <= i < h.fields().len() && #[trigger] h.fields()[i] == (
                title_key(),
                json_string(h.title->0@),
            ),
{
    let f = h.fields();
    assert(version_key().len() != title_key().len());
    assert(width_key()[0] != title_key()[0]);
    assert(height_key().len() != title_key().len());
    assert(timestamp_key().len() != title_key().len());
    assert(duration_key().len() != title_key().len());
    assert(idle_time_limit_key().len() != title_key().len());
    assert(command_key().len() != title_key().len());
    assert(env_key().len() != title_key().len());
    let base = seq![
        (version_key(), decimal(VERSION as nat)),
        (width_key(), decimal(h.width as nat)),
        (height_key(), decimal(h.height as nat)),
    ];
    let pre = base + opt_decimal(timestamp_key(), h.timestamp) + opt_seconds(
        duration_key(),
        h.duration,
    ) + opt_seconds(idle_time_limit_key(), h.idle_time_limit) + opt_string(
        command_key(),
        h.command,
    );
    let env = if h.env@.len() == 0 {
        Seq::empty()
    } else {
        seq![(env_key(), object(env_fields(h.env@)))]
    };
    assert(f == pre + opt_string(title_key(), h.title) + env);
    assert forall|i: int| 0 <= i < pre.len() implies (#[trigger] pre[i]).0 != title_key() by {
        if i >= 3 {
            let k = pre[i].0;
            assert(k == timestamp_key() || k == duration_key() || k == idle_time_limit_key()
                || k == command_key());
        }
    }
    assert forall|i: int| 0 <= i < env.len() implies (#[trigger] env[i]).0 != title_key() by {}
    if h.title is Some {
        assert(f[pre.len() as int] == (title_key(), json_string(h.title->0@)));
    } else {
        assert forall|i: int| 0 <= i < f.len() implies (#[trigger] f[i]).0 != title_key() by {
            if i < pre.len() {
                assert(f[i] == pre[i]);
            } else {
                assert(f[i] == env[i - pre.len()]);
            }
        }
    }
}

/// Appends the separator before member `k` (none before the first), the key
/// quoted, and `": "`.
fn push_field_key(out: &mut String, k: usize, key: &str)
    ensures
        final(out)@ == old(out)@ + (if k == 0 {
            Seq::empty()
        } else {
            seq![',', ' ']
        }) + json_string(key@) + seq![':', ' '],
{
    if k != 0 {
        push_char(out, ',');
        push_char(out, ' ');
    }
    push_json_string(out, key);
    push_char(out, ':');
    push_char(out, ' ');
    assert(final(out)@ =~= old(out)@ + (if k == 0 {
        Seq::empty()
    } else {
        seq![',', ' ']
    }) + json_string(key@) + seq![':', ' ']);
}

} // verus!
