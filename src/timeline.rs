//! Folding the fragments of each instruction into one timeline, carrying the
//! time of waits forward to the next event.
use vstd::prelude::*;

use crate::event::{crlf, event_view, events_view, Event, EventType, EventView};
use crate::text::owned;

verus! {

/// The events one instruction produced, with times relative to each other.
#[derive(Debug)]
pub enum Events {
    /// A command typed out, then what the shell printed.
    Command(Vec<Event>),
    /// The screen cleared and the prompt printed again.
    Clear(Vec<Event>),
    /// A single event.
    Once(Event),
    /// No events: a pause, in microseconds, added to the next event.
    Wait(u64),
    /// No events at all.
    Empty,
}

impl Events {
    pub open spec fn events_spec(&self) -> Seq<EventView> {
        match self {
            Events::Command(v) => events_view(v@),
            Events::Clear(v) => events_view(v@),
            Events::Once(e) => seq![e@],
            Events::Wait(_) => Seq::empty(),
            Events::Empty => Seq::empty(),
        }
    }

    /// The pause this fragment adds to the next event.
    pub open spec fn wait_spec(&self) -> nat {
        match self {
            Events::Wait(w) => *w as nat,
            _ => 0,
        }
    }

    pub fn once(event: Event) -> (r: Self)
        ensures
            r is Once,
            r.events_spec() == seq![event@],
            r.wait_spec() == 0,
    {
        Events::Once(event)
    }

    /// The events of the fragment, in order.
    pub fn events(&self) -> (r: Vec<Event>)
        ensures
            events_view(r@) == self.events_spec(),
    {
        match self {
            Events::Command(v) => clone_events(v),
            Events::Clear(v) => clone_events(v),
            Events::Once(e) => {
                let r = vec![e.clone()];
                assert(events_view(r@) =~= seq![e@]);
                r
            },
            Events::Wait(_) => {
                let r: Vec<Event> = Vec::new();
                assert(events_view(r@) =~= Seq::empty());
                r
            },
            Events::Empty => {
                let r: Vec<Event> = Vec::new();
                assert(events_view(r@) =~= Seq::empty());
                r
            },
        }
    }
}

fn clone_events(v: &Vec<Event>) -> (r: Vec<Event>)
    ensures
        events_view(r@) == events_view(v@),
{
    let mut r: Vec<Event> = Vec::new();
    let mut i: usize = 0;
    while i < v.len()
        invariant
            i <= v@.len(),
            events_view(r@) == events_view(v@).subrange(0, i as int),
        decreases v@.len() - i,
    {
        let ghost before = r@;
        r.push(v[i].clone());
        assert(r@ == before.push(r@.last()));
        assert(events_view(r@) =~= events_view(before).push(v@[i as int]@));
        assert(events_view(v@).subrange(0, i + 1) =~= events_view(v@).subrange(0, i as int).push(
            v@[i as int]@,
        ));
        i += 1;
    }
    assert(events_view(v@).subrange(0, i as int) =~= events_view(v@));
    r
}

/// The sum of the delays of a sequence of events: the time at which its last
/// event happens.
pub open spec fn sum_times(s: Seq<EventView>) -> nat
    decreases s.len(),
{
    if s.len() == 0 {
        0
    } else {
        sum_times(s.drop_last()) + s.last().time as nat
    }
}

/// `s` with `d` added to the delay of its first event, if it has one.
pub open spec fn delay_first(s: Seq<EventView>, d: nat) -> Seq<EventView> {
    if s.len() == 0 {
        s
    } else {
        s.update(0, EventView { time: (s[0].time + d) as u64, ..s[0] })
    }
}

/// The wait time not yet given to any event after the first `k` fragments.
pub open spec fn debt_after(fs: Seq<Events>, k: int) -> nat
    decreases k,
{
    if k <= 0 {
        0
    } else {
        let d = debt_after(fs, k - 1);
        match fs[k - 1] {
            Events::Wait(w) => d + w as nat,
            _ => if fs[k - 1].events_spec().len() == 0 {
                d
            } else {
                0
            },
        }
    }
}

/// The events of the first `k` fragments, each fragment's first event delayed
/// by the wait time carried into it.
pub open spec fn body_after(fs: Seq<Events>, k: int) -> Seq<EventView>
    decreases k,
{
    if k <= 0 {
        Seq::empty()
    } else {
        body_after(fs, k - 1) + delay_first(fs[k - 1].events_spec(), debt_after(fs, k - 1))
    }
}

/// The delays and waits of the first `k` fragments, added up.
pub open spec fn total_time(fs: Seq<Events>, k: int) -> nat
    decreases k,
{
    if k <= 0 {
        0
    } else {
        total_time(fs, k - 1) + sum_times(fs[k - 1].events_spec()) + fs[k - 1].wait_spec()
    }
}

/// The whole recording: the prompt at time zero, every fragment in order, and
/// a final line terminator `type_speed` after the last event, plus any wait
/// left over at the end.
pub open spec fn timeline(prompt: Seq<char>, type_speed: u64, fs: Seq<Events>) -> Seq<EventView> {
    seq![event_view(0, EventType::Output, prompt)] + body_after(fs, fs.len() as int) + seq![
        event_view(
            (type_speed + debt_after(fs, fs.len() as int)) as u64,
            EventType::Output,
            crlf(),
        ),
    ]
}

proof fn lemma_sum_times_concat(a: Seq<EventView>, b: Seq<EventView>)
    ensures
        sum_times(a + b) == sum_times(a) + sum_times(b),
    decreases b.len(),
{
    if b.len() == 0 {
        assert(a + b =~= a);
    } else {
        assert((a + b).drop_last() =~= a + b.drop_last());
        lemma_sum_times_concat(a, b.drop_last());
    }
}

proof fn lemma_sum_times_delay_first(s: Seq<EventView>, d: nat)
    requires
        s.len() > 0,
        s[0].time + d <= u64::MAX,
    ensures
        sum_times(delay_first(s, d)) == sum_times(s) + d,
    decreases s.len(),
{
    if s.len() == 1 {
        assert(delay_first(s, d).drop_last() =~= Seq::<EventView>::empty());
        assert(s.drop_last() =~= Seq::<EventView>::empty());
    } else {
        assert(delay_first(s, d).drop_last() =~= delay_first(s.drop_last(), d));
        lemma_sum_times_delay_first(s.drop_last(), d);
    }
}

proof fn lemma_first_time_le_sum(s: Seq<EventView>)
    requires
        s.len() > 0,
    ensures
        s[0].time <= sum_times(s),
    decreases s.len(),
{
    if s.len() > 1 {
        lemma_first_time_le_sum(s.drop_last());
    }
}

proof fn lemma_total_time_monotonic(fs: Seq<Events>, j: int, k: int)
    requires
        0 <= j <= k,
    ensures
        total_time(fs, j) <= total_time(fs, k),
    decreases k - j,
{
    if j < k {
        lemma_total_time_monotonic(fs, j, k - 1);
    }
}

/// After the first `k` fragments, the delays placed so far and the wait time
/// still carried add up to the fragments' own delays and waits.
proof fn lemma_body_conserves_time(fs: Seq<Events>, k: int)
    requires
        0 <= k <= fs.len(),
        total_time(fs, k) <= u64::MAX,
    ensures
        sum_times(body_after(fs, k)) + debt_after(fs, k) == total_time(fs, k),
    decreases k,
{
    if k > 0 {
        lemma_total_time_monotonic(fs, k - 1, k);
        lemma_body_conserves_time(fs, k - 1);
        let e = fs[k - 1].events_spec();
        let d = debt_after(fs, k - 1);
        lemma_sum_times_concat(body_after(fs, k - 1), delay_first(e, d));
        if e.len() > 0 {
            lemma_first_time_le_sum(e);
            lemma_sum_times_delay_first(e, d);
        }
    }
}

/// The recording takes exactly as long as its fragments' delays and waits put
/// together, plus the pause before the final line terminator: no wait time is
/// lost or counted twice.
pub proof fn lemma_timeline_conserves_time(prompt: Seq<char>, type_speed: u64, fs: Seq<Events>)
    requires
        total_time(fs, fs.len() as int) + type_speed <= u64::MAX,
    ensures
        sum_times(timeline(prompt, type_speed, fs)) == total_time(fs, fs.len() as int)
            + type_speed,
{
    let n = fs.len() as int;
    lemma_body_conserves_time(fs, n);
    let first = seq![event_view(0, EventType::Output, prompt)];
    let last = seq![
        event_view((type_speed + debt_after(fs, n)) as u64, EventType::Output, crlf()),
    ];
    lemma_sum_times_concat(first + body_after(fs, n), last);
    lemma_sum_times_concat(first, body_after(fs, n));
    assert(first.drop_last() =~= Seq::<EventView>::empty());
    assert(last.drop_last() =~= Seq::<EventView>::empty());
    assert(first.last() == event_view(0, EventType::Output, prompt));
    assert(sum_times(Seq::<EventView>::empty()) == 0);
    assert(sum_times(first) == 0);
    assert(sum_times(last) == type_speed + debt_after(fs, n));
    assert(timeline(prompt, type_speed, fs) == first + body_after(fs, n) + last);
}

/// Every event of the recording comes no earlier than the one before it.
pub proof fn lemma_timeline_deltas_non_negative(
    prompt: Seq<char>,
    type_speed: u64,
    fs: Seq<Events>,
)
    ensures
        forall|i: int|
            0 <= i < timeline(prompt, type_speed, fs).len() ==> #[trigger] timeline(
                prompt,
                type_speed,
                fs,
            )[i].time >= 0,
{
}

/// The sums of the delays of the prefixes of a sequence of events never go down.
pub proof fn lemma_sum_times_prefix_monotonic(s: Seq<EventView>, i: int, j: int)
    requires
        0 <= i <= j <= s.len(),
    ensures
        sum_times(s.take(i)) <= sum_times(s.take(j)),
    decreases j - i,
{
    if i < j {
        lemma_sum_times_prefix_monotonic(s, i, j - 1);
        assert(s.take(j).drop_last() =~= s.take(j - 1));
    }
}

/// The time at which each event happens (the sum of the delays up to it) never
/// goes down along the recording.
pub proof fn lemma_timeline_cumulative_time_monotonic(
    prompt: Seq<char>,
    type_speed: u64,
    fs: Seq<Events>,
    i: int,
    j: int,
)
    requires
        0 <= i <= j <= timeline(prompt, type_speed, fs).len(),
    ensures
        sum_times(timeline(prompt, type_speed, fs).take(i)) <= sum_times(
            timeline(prompt, type_speed, fs).take(j),
        ),
{
    lemma_sum_times_prefix_monotonic(timeline(prompt, type_speed, fs), i, j);
}

/// Whether the first `k` fragments of two lists are the same.
pub open spec fn same_prefix(a: Seq<Events>, b: Seq<Events>, k: int) -> bool {
    forall|i: int| 0 <= i < k ==> a[i] == b[i]
}

proof fn lemma_prefix_determines(a: Seq<Events>, b: Seq<Events>, k: int)
    requires
        same_prefix(a, b, k),
    ensures
        debt_after(a, k) == debt_after(b, k),
        body_after(a, k) == body_after(b, k),
    decreases k,
{
    if k > 0 {
        lemma_prefix_determines(a, b, k - 1);
    }
}

/// A fragment with no events and no wait leaves everything after it as it was.
proof fn lemma_silent_fragment_shift(pre: Seq<Events>, post: Seq<Events>, silent: Events, m: int)
    requires
        silent.events_spec().len() == 0,
        !(silent is Wait),
        0 <= m <= post.len(),
    ensures
        debt_after(pre.push(silent) + post, pre.len() + 1 + m) == debt_after(
            pre + post,
            pre.len() + m,
        ),
        body_after(pre.push(silent) + post, pre.len() + 1 + m) == body_after(
            pre + post,
            pre.len() + m,
        ),
    decreases m,
{
    let a = pre.push(silent) + post;
    let b = pre + post;
    let p = pre.len() as int;
    if m == 0 {
        assert(same_prefix(a, b, p));
        lemma_prefix_determines(a, b, p);
        assert(a[p] == silent);
        assert(delay_first(silent.events_spec(), debt_after(a, p)) =~= Seq::<EventView>::empty());
        assert(body_after(a, p + 1) =~= body_after(a, p));
    } else {
        lemma_silent_fragment_shift(pre, post, silent, m - 1);
        assert(a[p + m] == post[m - 1]);
        assert(b[p + m - 1] == post[m - 1]);
    }
}

/// A fragment with no events and no wait, such as that of a hidden command,
/// adds nothing to the recording wherever it stands.
pub proof fn lemma_silent_fragment_adds_nothing(
    prompt: Seq<char>,
    type_speed: u64,
    pre: Seq<Events>,
    post: Seq<Events>,
    silent: Events,
)
    requires
        silent.events_spec().len() == 0,
        !(silent is Wait),
    ensures
        timeline(prompt, type_speed, pre.push(silent) + post) == timeline(
            prompt,
            type_speed,
            pre + post,
        ),
{
    lemma_silent_fragment_shift(pre, post, silent, post.len() as int);
    assert((pre.push(silent) + post).len() == pre.len() + 1 + post.len());
    assert((pre + post).len() == pre.len() + post.len());
}

/// The sum of the delays of `events`, plus `base`; `None` where it exceeds
/// `u64::MAX`.
pub fn checked_sum_times(events: &Vec<Event>, base: u64) -> (r: Option<u64>)
    ensures
        r is Some <==> base + sum_times(events_view(events@)) <= u64::MAX,
        r is Some ==> r->0 == base + sum_times(events_view(events@)),
{
    let ghost s = events_view(events@);
    let mut acc: u64 = base;
    let mut i: usize = 0;
    while i < events.len()
        invariant
            i <= events@.len(),
            s == events_view(events@),
            acc == base + sum_times(s.take(i as int)),
        decreases events@.len() - i,
    {
        assert(s.take(i + 1).drop_last() =~= s.take(i as int));
        match acc.checked_add(events[i].time) {
            Some(a) => {
                acc = a;
            },
            None => {
                proof {
                    lemma_sum_times_prefix_monotonic(s, i + 1, s.len() as int);
                    assert(s.take(s.len() as int) =~= s);
                }
                return None;
            },
        }
        i += 1;
    }
    assert(s.take(i as int) =~= s);
    Some(acc)
}

/// The delays and waits of all fragments plus `type_speed`; `None` where that
/// exceeds `u64::MAX`.
pub fn checked_total_time(fragments: &Vec<Events>, type_speed: u64) -> (r: Option<u64>)
    ensures
        r is Some <==> total_time(fragments@, fragments@.len() as int) + type_speed <= u64::MAX,
        r is Some ==> r->0 == total_time(fragments@, fragments@.len() as int) + type_speed,
{
    let ghost fs = fragments@;
    let mut acc: u64 = type_speed;
    let mut i: usize = 0;
    while i < fragments.len()
        invariant
            i <= fs.len(),
            fs == fragments@,
            acc == total_time(fs, i as int) + type_speed,
        decreases fs.len() - i,
    {
        let f = &fragments[i];
        let wait: u64 = match f {
            Events::Wait(w) => *w,
            _ => 0,
        };
        let evs = f.events();
        let next = match checked_sum_times(&evs, acc) {
            Some(a) => a.checked_add(wait),
            None => None,
        };
        match next {
            Some(a) => {
                acc = a;
            },
            None => {
                proof {
                    lemma_total_time_monotonic(fs, i + 1, fs.len() as int);
                }
                return None;
            },
        }
        i += 1;
    }
    Some(acc)
}

/// `assemble`, where the recording's total time fits in `u64`; `None` where it
/// does not.
pub fn assemble_checked(fragments: &Vec<Events>, prompt: &str, type_speed: u64) -> (r: Option<
    Vec<Event>,
>)
    ensures
        r is Some <==> total_time(fragments@, fragments@.len() as int) + type_speed <= u64::MAX,
        r is Some ==> events_view(r->0@) == timeline(prompt@, type_speed, fragments@),
{
    match checked_total_time(fragments, type_speed) {
        Some(_) => Some(assemble(fragments, prompt, type_speed)),
        None => None,
    }
}

/// Joins the fragments of a script's instructions into one recording: the
/// prompt first, then each fragment with the wait time carried into it added to
/// its first event, then a line terminator `type_speed` later, plus any wait
/// left at the end.
pub fn assemble(fragments: &Vec<Events>, prompt: &str, type_speed: u64) -> (r: Vec<Event>)
    requires
        total_time(fragments@, fragments@.len() as int) + type_speed <= u64::MAX,
    ensures
        events_view(r@) == timeline(prompt@, type_speed, fragments@),
{
    let ghost fs = fragments@;
    let ghost n = fs.len() as int;
    let ghost head = seq![event_view(0, EventType::Output, prompt@)];
    let mut r: Vec<Event> = Vec::new();
    r.push(Event::output(0, owned(prompt)));
    let mut debt: u64 = 0;
    let mut i: usize = 0;
    proof {
        lemma_total_time_monotonic(fs, 0, n);
    }
    assert(events_view(r@) =~= head + body_after(fs, 0));
    while i < fragments.len()
        invariant
            fs == fragments@,
            n == fs.len(),
            i <= n,
            total_time(fs, n) + type_speed <= u64::MAX,
            debt as nat == debt_after(fs, i as int),
            events_view(r@) == head + body_after(fs, i as int),
        decreases n - i,
    {
        proof {
            lemma_total_time_monotonic(fs, i + 1, n);
            lemma_body_conserves_time(fs, i + 1);
            lemma_body_conserves_time(fs, i as int);
        }
        let ghost before = events_view(r@);
        match &fragments[i] {
            Events::Wait(w) => {
                debt = debt + *w;
                assert(delay_first(fs[i as int].events_spec(), debt_after(fs, i as int))
                    =~= Seq::<EventView>::empty());
            },
            f => {
                let mut evs = f.events();
                if evs.len() > 0 {
                    proof {
                        lemma_first_time_le_sum(f.events_spec());
                    }
                    let ghost e = events_view(evs@);
                    let first_time = evs[0].time + debt;
                    evs.set(0, Event { time: first_time, event_type: evs[0].event_type, data: owned(evs[0].data.as_str()) });
                    assert(events_view(evs@) =~= delay_first(e, debt as nat));
                    debt = 0;
                } else {
                    assert(delay_first(events_view(evs@), debt as nat) =~= events_view(evs@));
                }
                r.append(&mut evs);
            },
        }
        assert(events_view(r@) =~= before + delay_first(
            fs[i as int].events_spec(),
            debt_after(fs, i as int),
        ));
        i += 1;
    }
    proof {
        lemma_body_conserves_time(fs, n);
    }
    r.push(Event::outputln(type_speed + debt));
    assert(events_view(r@) =~= timeline(prompt@, type_speed, fs));
    r
}

} // verus!
