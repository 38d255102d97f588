//! The decisions of a shell session: prompt detection on what a read returned,
//! the delay of each captured event, and the read timeout. The process and its
//! terminal are driven by the caller, which hands in what it read and a reading
//! of a monotonic clock, in microseconds.
use vstd::prelude::*;

use crate::event::{event_view, Event, EventType};
use crate::text::{ends_with, owned, push_char};

use os_str_bytes::OsStrBytes;

verus! {

/// The text of the bytes the shell printed, invalid UTF-8 replaced by U+FFFD.
pub uninterp spec fn lossy_text(bytes: Seq<u8>) -> Seq<char>;

/// Relies on os_str_bytes' `OsStrBytes::assert_from_raw_bytes`, which on Unix
/// takes any byte string as it is (here for a `Path`, whose `to_string_lossy`
/// is that of its `OsStr`), and on `to_string_lossy`, which keeps valid UTF-8
/// and puts U+FFFD for each invalid sequence: no bytes give no text, and some
/// bytes give some text.
#[verifier::external_body]
#[allow(deprecated)]
fn raw_bytes_text(bytes: &[u8]) -> (r: String)
    ensures
        r@ == lossy_text(bytes@),
        r@.len() == 0 <==> bytes@.len() == 0,
{
    std::path::Path::assert_from_raw_bytes(bytes).to_string_lossy().into_owned()
}

/// The text of what one read of the shell's terminal returned. Decoding never
/// fails: bytes that are not UTF-8 become U+FFFD, and the recording keeps them
/// so.
pub fn output_text(bytes: &[u8]) -> (r: String)
    ensures
        r@ == lossy_text(bytes@),
        r@.len() == 0 <==> bytes@.len() == 0,
{
    raw_bytes_text(bytes)
}

/// How far a read brought the wait for the prompt.
#[derive(Debug, Clone, Copy, PartialEq, Eq, Structural)]
pub enum ReadState {
    /// The prompt was seen: the shell is ready.
    Prompt,
    /// No prompt yet, and time is left: read again.
    Pending,
    /// No prompt, and the timeout has passed since the reading began.
    TimedOut,
}

/// The state of a shell session: the prompt it waits for, the command that ends
/// it, the read timeout, and when the last event happened.
#[derive(Debug)]
pub struct ShellSession {
    pub prompt: String,
    pub quit_command: Option<String>,
    /// The longest wait for the prompt, in microseconds.
    pub timeout: u64,
    /// The clock reading of the last event, in microseconds.
    pub last_event: u64,
}

/// What one read shows: the output event's text, if any, and whether the read
/// ended with the prompt, which is then left out of the text. Output that
/// itself ends with the prompt's text cannot be told apart from the prompt.
pub open spec fn split_prompt(data: Seq<char>, prompt: Seq<char>) -> (Option<Seq<char>>, bool) {
    if data.len() == 0 {
        (None, false)
    } else if ends_with(data, prompt) {
        let head = data.subrange(0, data.len() - prompt.len());
        (if head.len() == 0 {
            None
        } else {
            Some(head)
        }, true)
    } else {
        (Some(data), false)
    }
}

/// The text a line is sent with: the line and its terminator.
pub open spec fn line_text(line: Seq<char>) -> Seq<char> {
    line.push('\n')
}

impl ShellSession {
    /// A session whose last event is now.
    pub fn new(prompt: String, quit_command: Option<String>, timeout: u64, now: u64) -> (r: Self)
        ensures
            r.prompt@ == prompt@,
            r.quit_command == quit_command,
            r.timeout == timeout,
            r.last_event == now,
    {
        ShellSession { prompt, quit_command, timeout, last_event: now }
    }

    /// Moves the time of the last event to now, so that the next delay counts
    /// from the start of an instruction.
    pub fn reset(&mut self, now: u64)
        ensures
            final(self).last_event == now,
            final(self).prompt == old(self).prompt,
            final(self).quit_command == old(self).quit_command,
            final(self).timeout == old(self).timeout,
    {
        self.last_event = now;
    }

    /// An output event that happens now.
    pub fn new_event(&mut self, now: u64, data: String) -> (r: Event)
        requires
            old(self).last_event <= now,
        ensures
            r@ == event_view((now - old(self).last_event) as u64, EventType::Output, data@),
            final(self).last_event == now,
            final(self).prompt == old(self).prompt,
            final(self).quit_command == old(self).quit_command,
            final(self).timeout == old(self).timeout,
    {
        let event = Event::output(now - self.last_event, data);
        self.last_event = now;
        event
    }

    /// Takes what one read of the shell's output returned, at time `now`.
    /// Where it ends with the prompt, the prompt is cut off and reported; an
    /// event is made of whatever text is left.
    pub fn read(&mut self, data: String, now: u64) -> (r: (Option<Event>, bool))
        requires
            old(self).last_event <= now,
        ensures
            ({
                let (text, seen) = split_prompt(data@, old(self).prompt@);
                &&& r.1 == seen
                &&& r.0 is Some <==> text is Some
                &&& text is Some ==> r.0->0@ == event_view(
                    (now - old(self).last_event) as u64,
                    EventType::Output,
                    text->0,
                )
                &&& final(self).last_event == if text is Some {
                    now
                } else {
                    old(self).last_event
                }
            }),
            final(self).prompt == old(self).prompt,
            final(self).quit_command == old(self).quit_command,
            final(self).timeout == old(self).timeout,
    {
        let n = data.as_str().unicode_len();
        if n == 0 {
            return (None, false);
        }
        let p = self.prompt.as_str().unicode_len();
        let mut matched = p <= n;
        let mut i: usize = 0;
        while matched && i < p
            invariant
                n == data@.len(),
                p == self.prompt@.len(),
                i <= p,
                matched ==> p <= n,
                matched ==> forall|j: int|
                    0 <= j < i ==> data@[n - p + j] == #[trigger] self.prompt@[j],
                !matched ==> !ends_with(data@, self.prompt@),
            decreases p - i + if matched {
                1int
            } else {
                0int
            },
        {
            if data.as_str().get_char(n - p + i) != self.prompt.as_str().get_char(i) {
                proof {
                    if ends_with(data@, self.prompt@) {
                        assert(data@.subrange(n - p, n as int)[i as int] == data@[n - p + i]);
                    }
                }
                matched = false;
            } else {
                i += 1;
            }
        }
        if matched {
            assert(data@.subrange(n - p, n as int) =~= self.prompt@);
            if n == p {
                (None, true)
            } else {
                let head = data.as_str().substring_char(0, n - p);
                let event = self.new_event(now, owned(head));
                (Some(event), true)
            }
        } else {
            (Some(self.new_event(now, data)), false)
        }
    }

    /// One round of waiting for the prompt: takes what a read returned, as
    /// `read` does, and tells whether to read again. The wait began at `start`.
    pub fn poll(&mut self, data: String, now: u64, start: u64) -> (r: (Option<Event>, ReadState))
        requires
            old(self).last_event <= now,
            start <= now,
        ensures
            ({
                let (text, seen) = split_prompt(data@, old(self).prompt@);
                &&& r.0 is Some <==> text is Some
                &&& text is Some ==> r.0->0@ == event_view(
                    (now - old(self).last_event) as u64,
                    EventType::Output,
                    text->0,
                )
                &&& final(self).last_event == if text is Some {
                    now
                } else {
                    old(self).last_event
                }
                &&& r.1 == if seen {
                    ReadState::Prompt
                } else if now - start > old(self).timeout {
                    ReadState::TimedOut
                } else {
                    ReadState::Pending
                }
            }),
            final(self).prompt == old(self).prompt,
            final(self).quit_command == old(self).quit_command,
            final(self).timeout == old(self).timeout,
    {
        let (event, seen) = self.read(data, now);
        if seen {
            (event, ReadState::Prompt)
        } else if now - start > self.timeout {
            (event, ReadState::TimedOut)
        } else {
            (event, ReadState::Pending)
        }
    }

    /// The text that ends the session, as a line, if a quit command is set.
    pub fn quit_input(&self) -> (r: Option<String>)
        ensures
            r is Some <==> self.quit_command is Some,
            r is Some ==> r->0@ == line_text(self.quit_command->0@),
    {
        match &self.quit_command {
            Some(q) => Some(line_input(q.as_str())),
            None => None,
        }
    }
}

/// The text a line is sent with: the line, then a line feed.
pub fn line_input(line: &str) -> (r: String)
    ensures
        r@ == line_text(line@),
{
    let mut r = owned(line);
    push_char(&mut r, '\n');
    r
}

} // verus!
