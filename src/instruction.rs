//! The instructions of a script, and the fragment of events each one yields
//! from what was captured while it ran (see `interpreter` for the running).
use vstd::prelude::*;

use crate::encode::{Command, Key};
use crate::event::{event_view, events_view, Event, EventType, EventView};
use crate::text::{owned, push_char};
use crate::timeline::{body_after, debt_after, timeline, Events};

verus! {

/// One step of a script.
#[derive(Debug)]
pub enum Instruction {
    /// Type a command and show what it prints, or, when hidden, run it unseen.
    Command { command: Command, hidden: bool, type_speed: Option<u64> },
    /// Type a command, then press keys while it runs.
    Interactive { command: Command, keys: Vec<Key>, type_speed: Option<u64> },
    /// Pause, in microseconds.
    Wait(u64),
    /// Mark the current instant with a label.
    Marker(String),
    /// Clear the screen.
    Clear,
}

/// The escape sequence that clears the terminal and its scrollback.
pub open spec fn clear_text() -> Seq<char> {
    seq!['\r', '\x1b', '[', 'H', '\x1b', '[', '2', 'J', '\x1b', '[', '3', 'J']
}

fn clear_string() -> (r: String)
    ensures
        r@ == clear_text(),
{
    let mut r = String::new();
    push_char(&mut r, '\r');
    push_char(&mut r, '\x1b');
    push_char(&mut r, '[');
    push_char(&mut r, 'H');
    push_char(&mut r, '\x1b');
    push_char(&mut r, '[');
    push_char(&mut r, '2');
    push_char(&mut r, 'J');
    push_char(&mut r, '\x1b');
    push_char(&mut r, '[');
    push_char(&mut r, '3');
    push_char(&mut r, 'J');
    assert(r@ =~= clear_text());
    r
}

pub open spec fn speed_or(type_speed: Option<u64>, default: u64) -> u64 {
    match type_speed {
        Some(t) => t,
        None => default,
    }
}

impl Instruction {
    pub open spec fn wf(&self) -> bool {
        match self {
            Instruction::Command { command, .. } => command.wf(),
            Instruction::Interactive { command, keys, .. } => command.wf() && forall|i: int|
                0 <= i < keys@.len() ==> (#[trigger] keys@[i]).wf(),
            _ => true,
        }
    }

    /// Whether `f` is the fragment of this instruction, given the events
    /// captured from the shell while it ran, prompt event included.
    pub open spec fn fragment_of(
        &self,
        f: Events,
        prompt: Seq<char>,
        secondary_prompt: Seq<char>,
        default_type_speed: u64,
        line_split: Seq<char>,
        output: Seq<EventView>,
    ) -> bool {
        match self {
            Instruction::Command { command, hidden, type_speed } => if *hidden {
                f is Empty
            } else {
                &&& f is Command
                &&& f.events_spec() == command.events_spec(
                    speed_or(*type_speed, default_type_speed),
                    secondary_prompt,
                    line_split,
                ) + output
            },
            Instruction::Interactive { command, type_speed, .. } => {
                &&& f is Command
                &&& f.events_spec() == command.events_spec(
                    speed_or(*type_speed, default_type_speed),
                    secondary_prompt,
                    line_split,
                ) + output
            },
            Instruction::Wait(d) => f == Events::Wait(*d),
            Instruction::Marker(label) => {
                &&& f is Once
                &&& f.events_spec() == seq![event_view(0, EventType::Marker, label@)]
            },
            Instruction::Clear => {
                &&& f is Clear
                &&& f.events_spec() == seq![
                    event_view(default_type_speed, EventType::Output, clear_text()),
                    event_view(default_type_speed, EventType::Output, prompt),
                ]
            },
        }
    }

    /// What the shell is sent when the instruction starts; `None` for the
    /// instructions that leave the shell alone.
    pub open spec fn input_spec(&self) -> Option<Seq<char>> {
        match self {
            Instruction::Command { command, .. } => Some(command.input_spec()),
            Instruction::Interactive { command, .. } => Some(command.input_spec()),
            _ => None,
        }
    }

    pub open spec fn type_speed_spec(&self, default_type_speed: u64) -> u64 {
        match self {
            Instruction::Command { type_speed, .. } => speed_or(*type_speed, default_type_speed),
            Instruction::Interactive { type_speed, .. } => speed_or(*type_speed, default_type_speed),
            _ => default_type_speed,
        }
    }

    pub fn input(&self) -> (r: Option<String>)
        requires
            self.wf(),
        ensures
            r is Some <==> self.input_spec() is Some,
            r is Some ==> r->0@ == self.input_spec()->0,
    {
        match self {
            Instruction::Command { command, .. } => Some(command.input()),
            Instruction::Interactive { command, .. } => Some(command.input()),
            _ => None,
        }
    }

    /// The pace at which this instruction types.
    pub fn type_speed(&self, default_type_speed: u64) -> (r: u64)
        ensures
            r == self.type_speed_spec(default_type_speed),
    {
        match self {
            Instruction::Command { type_speed: Some(t), .. } => *t,
            Instruction::Interactive { type_speed: Some(t), .. } => *t,
            _ => default_type_speed,
        }
    }

    /// The fragment of events this instruction yields: the typed command and
    /// what the shell printed, nothing for a hidden command, a pause, a marker,
    /// or a cleared screen with the prompt printed again. `output` is what was
    /// captured from the shell, prompt event included; the instructions that
    /// leave the shell alone ignore it.
    pub fn fragment(
        &self,
        prompt: &str,
        secondary_prompt: &str,
        default_type_speed: u64,
        line_split: &str,
        output: Vec<Event>,
    ) -> (r: Events)
        requires
            self.wf(),
        ensures
            self.fragment_of(
                r,
                prompt@,
                secondary_prompt@,
                default_type_speed,
                line_split@,
                events_view(output@),
            ),
    {
        match self {
            Instruction::Command { command, hidden, type_speed } => {
                if *hidden {
                    Events::Empty
                } else {
                    let t = self.type_speed(default_type_speed);
                    let mut typed = command.events(t, secondary_prompt, line_split);
                    let ghost a = events_view(typed@);
                    let mut output = output;
                    let ghost b = events_view(output@);
                    typed.append(&mut output);
                    assert(events_view(typed@) =~= a + b);
                    Events::Command(typed)
                }
            },
            Instruction::Interactive { command, .. } => {
                let t = self.type_speed(default_type_speed);
                let mut typed = command.events(t, secondary_prompt, line_split);
                let ghost a = events_view(typed@);
                let mut output = output;
                let ghost b = events_view(output@);
                typed.append(&mut output);
                assert(events_view(typed@) =~= a + b);
                Events::Command(typed)
            },
            Instruction::Wait(d) => Events::Wait(*d),
            Instruction::Marker(label) => Events::once(Event::marker(0, owned(label.as_str()))),
            Instruction::Clear => {
                let v = vec![
                    Event::output(default_type_speed, clear_string()),
                    Event::output(default_type_speed, owned(prompt)),
                ];
                assert(events_view(v@) =~= seq![
                    event_view(default_type_speed, EventType::Output, clear_text()),
                    event_view(default_type_speed, EventType::Output, prompt@),
                ]);
                Events::Clear(v)
            },
        }
    }
}

/// The waits of a script carry over to the next event: after `Wait(a)` and
/// `Wait(b)`, a marker comes `a + b` after the prompt that opens the recording.
pub proof fn lemma_waits_carry_to_marker(
    a: u64,
    b: u64,
    label: String,
    fragments: Seq<Events>,
    prompt: Seq<char>,
    secondary_prompt: Seq<char>,
    type_speed: u64,
    line_split: Seq<char>,
    outputs: Seq<Seq<EventView>>,
)
    requires
        a + b <= u64::MAX,
        fragments.len() == 3,
        outputs.len() == 3,
        Instruction::Wait(a).fragment_of(
            fragments[0],
            prompt,
            secondary_prompt,
            type_speed,
            line_split,
            outputs[0],
        ),
        Instruction::Wait(b).fragment_of(
            fragments[1],
            prompt,
            secondary_prompt,
            type_speed,
            line_split,
            outputs[1],
        ),
        Instruction::Marker(label).fragment_of(
            fragments[2],
            prompt,
            secondary_prompt,
            type_speed,
            line_split,
            outputs[2],
        ),
    ensures
        timeline(prompt, type_speed, fragments)[1] == event_view(
            (a + b) as u64,
            EventType::Marker,
            label@,
        ),
{
    assert(debt_after(fragments, 0) == 0);
    assert(body_after(fragments, 0) =~= Seq::<EventView>::empty());
    assert(debt_after(fragments, 1) == a);
    assert(debt_after(fragments, 2) == a + b);
    assert(body_after(fragments, 2) =~= Seq::<EventView>::empty()) by {
        assert(body_after(fragments, 1) =~= Seq::<EventView>::empty());
    }
    assert(body_after(fragments, 3) =~= seq![
        event_view((a + b) as u64, EventType::Marker, label@),
    ]);
}

/// A hidden command adds no event to the recording, wherever it stands in the
/// script, though its command is still sent to the shell.
pub proof fn lemma_hidden_command_silent(
    command: Command,
    type_speed: Option<u64>,
    fragment: Events,
    before: Seq<Events>,
    after: Seq<Events>,
    prompt: Seq<char>,
    secondary_prompt: Seq<char>,
    default_type_speed: u64,
    line_split: Seq<char>,
    output: Seq<EventView>,
)
    requires
        (Instruction::Command { command, hidden: true, type_speed }).fragment_of(
            fragment,
            prompt,
            secondary_prompt,
            default_type_speed,
            line_split,
            output,
        ),
    ensures
        timeline(prompt, default_type_speed, before.push(fragment) + after) == timeline(
            prompt,
            default_type_speed,
            before + after,
        ),
        (Instruction::Command { command, hidden: true, type_speed }).input_spec() == Some(
            command.input_spec(),
        ),
{
    crate::timeline::lemma_silent_fragment_adds_nothing(
        prompt,
        default_type_speed,
        before,
        after,
        fragment,
    );
}

/// When to press the keys of an interactive instruction: one key each
/// `type_speed`, a `Wait` key holding back the next one by its pause.
#[derive(Debug, Clone, Copy, PartialEq, Eq, Structural)]
pub struct KeyPacer {
    /// The index of the next key to press.
    pub next_key: usize,
    /// The clock reading, in microseconds, from which it may be pressed.
    pub next_time: u64,
}

/// What to do after a read that did not show the prompt.
#[derive(Debug, Clone, Copy, PartialEq, Eq, Structural)]
pub enum KeyStep {
    /// Nothing yet: read again.
    Idle,
    /// Send the key at this index, then read again.
    Press(usize),
    /// Every key was pressed: read until the prompt.
    Drain,
}

pub open spec fn key_wait(k: Key) -> nat {
    match k {
        Key::Wait(w) => w as nat,
        _ => 0,
    }
}

pub open spec fn capped(x: int) -> u64 {
    if x > u64::MAX {
        u64::MAX
    } else {
        x as u64
    }
}

impl KeyPacer {
    /// A pacer whose first key may be pressed `type_speed` after `now`.
    pub fn new(now: u64, type_speed: u64) -> (r: Self)
        ensures
            r.next_key == 0,
            r.next_time == capped(now + type_speed),
    {
        KeyPacer { next_key: 0, next_time: now.saturating_add(type_speed) }
    }

    /// Decides, at time `now`, whether to press the next key. A pressed key
    /// pushes the time of the next one `type_speed` further, plus its pause if
    /// it is a `Wait` key.
    pub fn step(&mut self, keys: &Vec<Key>, now: u64, type_speed: u64) -> (r: KeyStep)
        ensures
            now < old(self).next_time ==> r == KeyStep::Idle && *final(self) == *old(self),
            now >= old(self).next_time && old(self).next_key >= keys@.len() ==> r == KeyStep::Drain
                && *final(self) == *old(self),
            now >= old(self).next_time && old(self).next_key < keys@.len() ==> {
                &&& r == KeyStep::Press(old(self).next_key)
                &&& final(self).next_key == old(self).next_key + 1
                &&& final(self).next_time == capped(
                    capped(old(self).next_time + key_wait(keys@[old(self).next_key as int]))
                        + type_speed,
                )
            },
    {
        if now < self.next_time {
            KeyStep::Idle
        } else if self.next_key < keys.len() {
            let k = self.next_key;
            let wait: u64 = match &keys[k] {
                Key::Wait(w) => *w,
                _ => 0,
            };
            self.next_time = self.next_time.saturating_add(wait).saturating_add(type_speed);
            self.next_key = k + 1;
            KeyStep::Press(k)
        } else {
            KeyStep::Drain
        }
    }
}

} // verus!
