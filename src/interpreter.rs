//! Running one instruction against the shell, as a state machine: the caller
//! performs each action (a write, a read) and hands back what it read, with a
//! reading of a monotonic clock in microseconds, until the instruction yields
//! its fragment or times out.
use vstd::prelude::*;

use crate::encode::Key;
use crate::event::{event_view, events_view, Event, EventType, EventView};
use crate::instruction::{capped, key_wait, Instruction, KeyPacer, KeyStep};
use crate::session::{split_prompt, ReadState, ShellSession};
use crate::text::owned;
use crate::timeline::Events;

verus! {

/// Where a running instruction stands.
#[derive(Debug, Clone, Copy, PartialEq, Eq, Structural)]
pub enum Phase {
    /// Reading until the prompt, which is awaited from `start` on.
    Reading { start: u64 },
    /// Pressing keys, one read between presses, until the prompt shows.
    Keys { pacer: KeyPacer },
    /// Done.
    Finished,
}

/// What the caller must do next.
#[derive(Debug)]
pub enum Action {
    /// Write the text to the shell, then read.
    SendText(String),
    /// Write the bytes to the shell, then read.
    SendBytes(Vec<u8>),
    /// Read from the shell.
    Read,
    /// The instruction is done, with this fragment.
    Finish(Events),
    /// The prompt did not show within the session's timeout.
    TimedOut,
}

/// One instruction on its way: its phase, the events captured so far, and the
/// latest clock reading it was given.
#[derive(Debug)]
pub struct InstructionRun {
    pub phase: Phase,
    pub output: Vec<Event>,
    pub clock: u64,
}

/// What the run of an instruction yields once the prompt shows: the events
/// captured, the prompt event, and the fragment built from them.
pub open spec fn finishes(
    instruction: Instruction,
    f: Events,
    prompt: Seq<char>,
    secondary_prompt: Seq<char>,
    default_type_speed: u64,
    line_split: Seq<char>,
    captured: Seq<EventView>,
    prompt_delay: u64,
) -> bool {
    instruction.fragment_of(
        f,
        prompt,
        secondary_prompt,
        default_type_speed,
        line_split,
        captured.push(event_view(prompt_delay, EventType::Output, prompt)),
    )
}

/// The event a read adds, if any.
pub open spec fn read_events(data: Seq<char>, shell_prompt: Seq<char>, delay: u64) -> Seq<
    EventView,
> {
    match split_prompt(data, shell_prompt).0 {
        Some(text) => seq![event_view(delay, EventType::Output, text)],
        None => Seq::empty(),
    }
}

/// The pacer after the key at its index is pressed.
pub open spec fn pressed(p: KeyPacer, keys: Seq<Key>, type_speed: u64) -> KeyPacer {
    KeyPacer {
        next_key: (p.next_key + 1) as usize,
        next_time: capped(capped(p.next_time + key_wait(keys[p.next_key as int])) + type_speed),
    }
}

impl InstructionRun {
    /// Whether the run fits the instruction: it is pressing keys only for an
    /// interactive instruction, and reading only for one that talks to the shell.
    pub open spec fn wf(&self, instruction: &Instruction) -> bool {
        &&& self.phase is Keys ==> instruction is Interactive
        &&& self.phase is Reading ==> instruction.input_spec() is Some
        &&& self.phase matches Phase::Reading { start } ==> start <= self.clock
    }

    /// Starts an instruction at time `now`. One that leaves the shell alone is
    /// finished at once; another moves the session's last event to now and
    /// asks for its command to be sent.
    pub fn start(
        instruction: &Instruction,
        session: &mut ShellSession,
        now: u64,
        prompt: &str,
        secondary_prompt: &str,
        default_type_speed: u64,
        line_split: &str,
    ) -> (r: (InstructionRun, Action))
        requires
            instruction.wf(),
        ensures
            r.0.wf(instruction),
            r.0.clock == now,
            final(session).prompt == old(session).prompt,
            final(session).quit_command == old(session).quit_command,
            final(session).timeout == old(session).timeout,
            instruction.input_spec() is None ==> {
                &&& r.0.phase is Finished
                &&& *final(session) == *old(session)
                &&& r.1 matches Action::Finish(f) && instruction.fragment_of(
                    f,
                    prompt@,
                    secondary_prompt@,
                    default_type_speed,
                    line_split@,
                    Seq::empty(),
                )
            },
            instruction.input_spec() is Some ==> {
                &&& final(session).last_event == now
                &&& r.1 matches Action::SendText(t) && t@ == instruction.input_spec()->0
                &&& r.0.output@.len() == 0
                &&& r.0.phase == if instruction is Interactive {
                    Phase::Keys {
                        pacer: KeyPacer {
                            next_key: 0,
                            next_time: capped(now + instruction.type_speed_spec(default_type_speed)),
                        },
                    }
                } else {
                    Phase::Reading { start: now }
                }
            },
    {
        match instruction.input() {
            None => {
                let none: Vec<Event> = Vec::new();
                assert(events_view(none@) =~= Seq::<EventView>::empty());
                let f = instruction.fragment(
                    prompt,
                    secondary_prompt,
                    default_type_speed,
                    line_split,
                    none,
                );
                (
                    InstructionRun { phase: Phase::Finished, output: Vec::new(), clock: now },
                    Action::Finish(f),
                )
            },
            Some(text) => {
                session.reset(now);
                let phase = match instruction {
                    Instruction::Interactive { .. } => Phase::Keys {
                        pacer: KeyPacer::new(now, instruction.type_speed(default_type_speed)),
                    },
                    _ => Phase::Reading { start: now },
                };
                (
                    InstructionRun { phase, output: Vec::new(), clock: now },
                    Action::SendText(text),
                )
            },
        }
    }

    /// Takes what one read returned at time `now`, and says what to do next.
    /// A read that ends with the shell's prompt finishes the instruction: the
    /// prompt event is added and the fragment built. Otherwise a plain read
    /// asks to read again, or times out; while keys are pressed, the next key
    /// is sent when its time has come, and once all are sent the run reads
    /// until the prompt from now on.
    pub fn on_read(
        &mut self,
        instruction: &Instruction,
        session: &mut ShellSession,
        data: String,
        now: u64,
        prompt: &str,
        secondary_prompt: &str,
        default_type_speed: u64,
        line_split: &str,
    ) -> (r: Action)
        requires
            instruction.wf(),
            old(self).wf(instruction),
            !(old(self).phase is Finished),
            old(self).clock <= now,
            old(session).last_event <= now,
        ensures
            final(self).wf(instruction),
            final(self).clock == now,
            final(session).prompt == old(session).prompt,
            final(session).quit_command == old(session).quit_command,
            final(session).timeout == old(session).timeout,
            ({
                let (text, seen) = split_prompt(data@, old(session).prompt@);
                let captured = events_view(old(self).output@) + read_events(
                    data@,
                    old(session).prompt@,
                    (now - old(session).last_event) as u64,
                );
                let last = if text is Some {
                    now
                } else {
                    old(session).last_event
                };
                &&& seen ==> {
                    &&& final(self).phase is Finished
                    &&& final(session).last_event == now
                    &&& r matches Action::Finish(f) && finishes(
                        *instruction,
                        f,
                        prompt@,
                        secondary_prompt@,
                        default_type_speed,
                        line_split@,
                        captured,
                        (now - last) as u64,
                    )
                }
                &&& !seen ==> {
                    &&& final(session).last_event == last
                    &&& events_view(final(self).output@) == captured
                    &&& old(self).phase matches Phase::Reading { start } ==> if now - start
                        > old(session).timeout {
                        r is TimedOut && final(self).phase is Finished
                    } else {
                        r is Read && final(self).phase == old(self).phase
                    }
                    &&& old(self).phase matches Phase::Keys { pacer } ==> match instruction {
                        Instruction::Interactive { keys, .. } => {
                            let ts = instruction.type_speed_spec(default_type_speed);
                            if now < pacer.next_time {
                                r is Read && final(self).phase == old(self).phase
                            } else if pacer.next_key < keys@.len() {
                                &&& r matches Action::SendBytes(b) && b@
                                    == keys@[pacer.next_key as int].input_spec()
                                &&& final(self).phase == (Phase::Keys {
                                    pacer: pressed(pacer, keys@, ts),
                                })
                            } else {
                                r is Read && final(self).phase == (Phase::Reading { start: now })
                            }
                        },
                        _ => false,
                    }
                }
            }),
    {
        let ghost old_output = events_view(self.output@);
        let ghost old_last = session.last_event;
        let ghost (text, seen0) = split_prompt(data@, session.prompt@);
        self.clock = now;
        let (event, state) = match self.phase {
            Phase::Reading { start } => session.poll(data, now, start),
            _ => {
                let (event, seen) = session.read(data, now);
                (event, if seen {
                    ReadState::Prompt
                } else {
                    ReadState::Pending
                })
            },
        };
        match event {
            Some(e) => {
                self.output.push(e);
            },
            None => {},
        }
        assert(events_view(self.output@) =~= old_output + read_events(
            data@,
            session.prompt@,
            (now - old_last) as u64,
        ));
        match state {
            ReadState::Prompt => {
                let prompt_event = session.new_event(now, owned(prompt));
                let mut output: Vec<Event> = Vec::new();
                core::mem::swap(&mut output, &mut self.output);
                let ghost captured = events_view(output@);
                output.push(prompt_event);
                assert(events_view(output@) =~= captured.push(prompt_event@));
                self.phase = Phase::Finished;
                Action::Finish(
                    instruction.fragment(
                        prompt,
                        secondary_prompt,
                        default_type_speed,
                        line_split,
                        output,
                    ),
                )
            },
            ReadState::TimedOut => {
                self.phase = Phase::Finished;
                Action::TimedOut
            },
            ReadState::Pending => match self.phase {
                Phase::Keys { pacer } => match instruction {
                    Instruction::Interactive { keys, .. } => {
                        let ts = instruction.type_speed(default_type_speed);
                        let mut p = pacer;
                        match p.step(keys, now, ts) {
                            KeyStep::Idle => Action::Read,
                            KeyStep::Press(i) => {
                                self.phase = Phase::Keys { pacer: p };
                                Action::SendBytes(keys[i].input())
                            },
                            KeyStep::Drain => {
                                self.phase = Phase::Reading { start: now };
                                Action::Read
                            },
                        }
                    },
                    _ => Action::Read,
                },
                _ => Action::Read,
            },
        }
    }
}

} // verus!
