//! Commands and keys: the bytes they send to the shell, and the typed events
//! that show them being entered at a steady pace.
use vstd::prelude::*;

use crate::event::{crlf, event_view, events_view, Event, EventType, EventView};
use crate::text::{owned, push_char};

verus! {

/// The byte that the key `c` gives when held with Ctrl, as a control code:
/// `@` to `_` and `a` to `z` give 0 to 31, space gives 32 and `?` gives 127.
pub open spec fn control_byte(c: char) -> Option<u8> {
    if '@' <= c && c <= '_' {
        Some((c as u32 - 64) as u8)
    } else if 'a' <= c && c <= 'z' {
        Some((c as u32 - 96) as u8)
    } else if c == ' ' {
        Some(32)
    } else if c == '?' {
        Some(127)
    } else {
        None
    }
}

/// How a control code is shown: `^` and the key, `^?` for delete, and a plain
/// space for space.
pub open spec fn caret_text(b: u8) -> Seq<char> {
    if b == 32 {
        seq![' ']
    } else if b == 127 {
        seq!['^', '?']
    } else {
        seq!['^', (b + 64) as char]
    }
}

/// Relies on expectrl's `TryFrom<char>` for `ControlCode` and its
/// `From<ControlCode>` for `u8`: the control code a key stands for, as a byte.
#[verifier::external_body]
fn control_code_byte(c: char) -> (r: Option<u8>)
    ensures
        r == control_byte(c),
{
    expectrl::ControlCode::try_from(c).ok().map(u8::from)
}

/// Relies on expectrl's `AsRef<str>` for `ControlCode`: how the control code of
/// a key is shown.
#[verifier::external_body]
fn control_code_text(c: char) -> (r: String)
    requires
        control_byte(c) is Some,
    ensures
        r@ == caret_text(control_byte(c)->0),
{
    match expectrl::ControlCode::try_from(c) {
        Ok(code) => String::from(AsRef::<str>::as_ref(&code)),
        Err(()) => String::new(),
    }
}

/// A control code, named by the key that gives it with Ctrl (`c` for `^C`).
#[derive(Debug, Clone, Copy, PartialEq, Eq, Structural)]
pub struct Control {
    pub key: char,
}

impl Control {
    pub open spec fn wf(self) -> bool {
        control_byte(self.key) is Some
    }

    pub open spec fn byte_spec(self) -> u8 {
        control_byte(self.key)->0
    }

    /// The control code of a key; `None` where the key has none.
    pub fn from_char(key: char) -> (r: Option<Control>)
        ensures
            r is Some <==> control_byte(key) is Some,
            r is Some ==> r->0 == (Control { key }),
    {
        match control_code_byte(key) {
            Some(_) => Some(Control { key }),
            None => None,
        }
    }

    /// The byte sent to the shell.
    pub fn byte(&self) -> (r: u8)
        requires
            self.wf(),
        ensures
            r == self.byte_spec(),
    {
        match control_code_byte(self.key) {
            Some(b) => b,
            None => 0,
        }
    }

    /// How the control code is shown in the recording.
    pub fn text(&self) -> (r: String)
        requires
            self.wf(),
        ensures
            r@ == caret_text(self.byte_spec()),
    {
        control_code_text(self.key)
    }
}

/// A command entered at the prompt.
#[derive(Debug)]
pub enum Command {
    SingleLine(String),
    MultiLine(Vec<String>),
    Control(Control),
}

/// A key pressed during an interactive instruction.
#[derive(Debug)]
pub enum Key {
    Char(char),
    String(String),
    Control(Control),
    /// A pause, in microseconds, before the next key.
    Wait(u64),
}

/// The views of a sequence of lines.
pub open spec fn lines_view(v: Seq<String>) -> Seq<Seq<char>> {
    v.map_values(|l: String| l@)
}

/// One output event per character of `s`, each `type_speed` after the one before.
pub open spec fn typed(type_speed: u64, s: Seq<char>) -> Seq<EventView> {
    Seq::new(s.len(), |i: int| event_view(type_speed, EventType::Output, seq![s[i]]))
}

/// The characters of `s` typed out, then the line terminator.
pub open spec fn typed_line(type_speed: u64, s: Seq<char>) -> Seq<EventView> {
    typed(type_speed, s).push(event_view(type_speed, EventType::Output, crlf()))
}

/// The events that type line `i` of a multi-line command: the secondary prompt
/// before every line but the first, and the line split after every line but
/// the last.
pub open spec fn line_events(
    type_speed: u64,
    secondary_prompt: Seq<char>,
    line_split: Seq<char>,
    lines: Seq<Seq<char>>,
    i: int,
) -> Seq<EventView> {
    let prompt = if i != 0 {
        seq![event_view(type_speed, EventType::Output, secondary_prompt)]
    } else {
        Seq::empty()
    };
    let text = if i + 1 < lines.len() {
        lines[i] + line_split
    } else {
        lines[i]
    };
    prompt + typed_line(type_speed, text)
}

/// The events that type the first `k` lines of a multi-line command.
pub open spec fn multi_line_events(
    type_speed: u64,
    secondary_prompt: Seq<char>,
    line_split: Seq<char>,
    lines: Seq<Seq<char>>,
    k: int,
) -> Seq<EventView>
    decreases k,
{
    if k <= 0 {
        Seq::empty()
    } else {
        multi_line_events(type_speed, secondary_prompt, line_split, lines, k - 1) + line_events(
            type_speed,
            secondary_prompt,
            line_split,
            lines,
            k - 1,
        )
    }
}

/// The first `k` lines joined by single spaces.
pub open spec fn join_spaced(lines: Seq<Seq<char>>, k: int) -> Seq<char>
    decreases k,
{
    if k <= 0 {
        Seq::empty()
    } else if k == 1 {
        lines[0]
    } else {
        join_spaced(lines, k - 1) + seq![' '] + lines[k - 1]
    }
}

impl Command {
    pub open spec fn wf(&self) -> bool {
        match self {
            Command::Control(c) => c.wf(),
            _ => true,
        }
    }

    /// The events that show the command being typed.
    pub open spec fn events_spec(
        &self,
        type_speed: u64,
        secondary_prompt: Seq<char>,
        line_split: Seq<char>,
    ) -> Seq<EventView> {
        match self {
            Command::SingleLine(line) => typed_line(type_speed, line@),
            Command::MultiLine(lines) => multi_line_events(
                type_speed,
                secondary_prompt,
                line_split,
                lines_view(lines@),
                lines@.len() as int,
            ),
            Command::Control(c) => typed_line(type_speed, caret_text(c.byte_spec())),
        }
    }

    /// What the shell is sent: a line, with its terminator, or one control byte.
    /// The lines of a multi-line command are sent as one line, joined by spaces.
    pub open spec fn input_spec(&self) -> Seq<char> {
        match self {
            Command::SingleLine(line) => line@.push('\n'),
            Command::MultiLine(lines) => join_spaced(lines_view(lines@), lines@.len() as int).push(
                '\n',
            ),
            Command::Control(c) => seq![c.byte_spec() as char],
        }
    }

    pub fn input(&self) -> (r: String)
        requires
            self.wf(),
        ensures
            r@ == self.input_spec(),
    {
        match self {
            Command::SingleLine(line) => {
                let mut r = owned(line.as_str());
                push_char(&mut r, '\n');
                r
            },
            Command::MultiLine(lines) => {
                let mut r = String::new();
                let mut i: usize = 0;
                while i < lines.len()
                    invariant
                        i <= lines@.len(),
                        r@ == join_spaced(lines_view(lines@), i as int),
                    decreases lines@.len() - i,
                {
                    if i > 0 {
                        push_char(&mut r, ' ');
                    }
                    r.append(lines[i].as_str());
                    proof {
                        if i > 0 {
                            assert(r@ =~= join_spaced(lines_view(lines@), i as int) + seq![' ']
                                + lines_view(lines@)[i as int]);
                        }
                    }
                    i += 1;
                }
                push_char(&mut r, '\n');
                r
            },
            Command::Control(c) => {
                let mut r = String::new();
                push_char(&mut r, c.byte() as char);
                r
            },
        }
    }

    /// The events that show the command being typed, `type_speed` apart.
    pub fn events(&self, type_speed: u64, secondary_prompt: &str, line_split: &str) -> (r: Vec<
        Event,
    >)
        requires
            self.wf(),
        ensures
            events_view(r@) == self.events_spec(type_speed, secondary_prompt@, line_split@),
    {
        match self {
            Command::SingleLine(line) => type_line(type_speed, line.as_str()),
            Command::Control(c) => {
                let text = c.text();
                type_line(type_speed, text.as_str())
            },
            Command::MultiLine(lines) => {
                let ghost lv = lines_view(lines@);
                let mut r: Vec<Event> = Vec::new();
                let mut i: usize = 0;
                while i < lines.len()
                    invariant
                        i <= lines@.len(),
                        lv == lines_view(lines@),
                        events_view(r@) == multi_line_events(
                            type_speed,
                            secondary_prompt@,
                            line_split@,
                            lv,
                            i as int,
                        ),
                    decreases lines@.len() - i,
                {
                    let ghost before = events_view(r@);
                    let mut part: Vec<Event> = Vec::new();
                    if i != 0 {
                        part.push(Event::output(type_speed, owned(secondary_prompt)));
                    }
                    let mut text = owned(lines[i].as_str());
                    if i + 1 < lines.len() {
                        text.append(line_split);
                    }
                    let mut typed_part = type_line(type_speed, text.as_str());
                    part.append(&mut typed_part);
                    assert(events_view(part@) =~= line_events(
                        type_speed,
                        secondary_prompt@,
                        line_split@,
                        lv,
                        i as int,
                    ));
                    r.append(&mut part);
                    assert(events_view(r@) =~= before + line_events(
                        type_speed,
                        secondary_prompt@,
                        line_split@,
                        lv,
                        i as int,
                    ));
                    i += 1;
                }
                r
            },
        }
    }
}

/// One event per character of `line`, each `type_speed` after the one before,
/// then the line terminator.
pub fn type_line(type_speed: u64, line: &str) -> (r: Vec<Event>)
    ensures
        events_view(r@) == typed_line(type_speed, line@),
{
    let n = line.unicode_len();
    let mut r: Vec<Event> = Vec::new();
    let mut i: usize = 0;
    while i < n
        invariant
            n == line@.len(),
            i <= n,
            events_view(r@) == typed(type_speed, line@.subrange(0, i as int)),
        decreases n - i,
    {
        let mut s = String::new();
        push_char(&mut s, line.get_char(i));
        assert(s@ =~= seq![line@[i as int]]);
        let ghost before = r@;
        r.push(Event::output(type_speed, s));
        assert(r@ == before.push(r@.last()));
        let ghost x = event_view(type_speed, EventType::Output, seq![line@[i as int]]);
        assert(events_view(r@) =~= events_view(before).push(x));
        assert(typed(type_speed, line@.subrange(0, i + 1)) =~= typed(
            type_speed,
            line@.subrange(0, i as int),
        ).push(x));
        assert(events_view(r@) =~= typed(type_speed, line@.subrange(0, i + 1)));
        i += 1;
    }
    assert(line@.subrange(0, n as int) =~= line@);
    r.push(Event::outputln(type_speed));
    assert(events_view(r@) =~= typed_line(type_speed, line@));
    r
}

impl Key {
    pub open spec fn wf(&self) -> bool {
        match self {
            Key::Control(c) => c.wf(),
            _ => true,
        }
    }

    /// The bytes a key sends: each character cut to its low byte, the control
    /// byte, or nothing for a pause.
    pub open spec fn input_spec(&self) -> Seq<u8> {
        match self {
            Key::Char(c) => seq![*c as u8],
            Key::String(s) => s@.map_values(|c: char| c as u8),
            Key::Control(c) => seq![c.byte_spec()],
            Key::Wait(_) => Seq::empty(),
        }
    }

    pub fn input(&self) -> (r: Vec<u8>)
        requires
            self.wf(),
        ensures
            r@ == self.input_spec(),
    {
        let mut r: Vec<u8> = Vec::new();
        match self {
            Key::Char(c) => r.push(*c as u8),
            Key::String(s) => {
                let n = s.as_str().unicode_len();
                let mut i: usize = 0;
                while i < n
                    invariant
                        n == s@.len(),
                        i <= n,
                        r@ == s@.subrange(0, i as int).map_values(|c: char| c as u8),
                    decreases n - i,
                {
                    r.push(s.as_str().get_char(i) as u8);
                    assert(r@ =~= s@.subrange(0, i + 1).map_values(|c: char| c as u8));
                    i += 1;
                }
                assert(s@.subrange(0, n as int) =~= s@);
            },
            Key::Control(c) => r.push(c.byte()),
            Key::Wait(_) => {},
        }
        r
    }
}

} // verus!
