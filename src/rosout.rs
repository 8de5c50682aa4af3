//! The log pane: a bounded buffer of the newest log lines, and which lines are kept.
use vstd::prelude::*;

verus! {

/// The two ends of a ring buffer of log lines, held together by one owner.
#[verifier::external_body]
pub struct LogRing {
    producer: ringbuf::Producer<String>,
    consumer: ringbuf::Consumer<String>,
}

/// The lines in the ring, oldest first.
pub uninterp spec fn ring_contents(r: LogRing) -> Seq<Seq<char>>;

/// The number of lines that the ring holds at most.
pub uninterp spec fn ring_capacity(r: LogRing) -> nat;

/// Relies on ringbuf's `RingBuffer::new` and `split`: an empty ring of `capacity` lines.
#[verifier::external_body]
fn ring_new(capacity: usize) -> (r: LogRing)
    requires
        capacity < usize::MAX,
    ensures
        ring_contents(r) == Seq::<Seq<char>>::empty(),
        ring_capacity(r) == capacity,
{
    let (producer, consumer) = ringbuf::RingBuffer::<String>::new(capacity).split();
    LogRing { producer, consumer }
}

/// Relies on ringbuf's `Producer::remaining`: the free room, exact while one owner holds both
/// ends.
#[verifier::external_body]
fn ring_remaining(r: &LogRing) -> (n: usize)
    ensures
        ring_contents(*r).len() <= ring_capacity(*r) ==> n == ring_capacity(*r) - ring_contents(
            *r,
        ).len(),
{
    r.producer.remaining()
}

/// Relies on ringbuf's `Consumer::pop`: takes out the oldest line, if any.
#[verifier::external_body]
fn ring_pop(r: &mut LogRing) -> (x: Option<String>)
    ensures
        ring_capacity(*final(r)) == ring_capacity(*old(r)),
        ring_contents(*old(r)).len() == 0 ==> x is None && ring_contents(*final(r)) == ring_contents(*old(r)),
        ring_contents(*old(r)).len() > 0 ==> (x matches Some(s) && s@ == ring_contents(*old(r))[0]
            && ring_contents(*final(r)) == ring_contents(*old(r)).drop_first()),
{
    r.consumer.pop()
}

/// Relies on ringbuf's `Producer::push`: appends the line when there is room, else refuses it.
#[verifier::external_body]
fn ring_push(r: &mut LogRing, s: String) -> (ok: bool)
    ensures
        ring_capacity(*final(r)) == ring_capacity(*old(r)),
        ok == (ring_contents(*old(r)).len() < ring_capacity(*old(r))),
        ok ==> ring_contents(*final(r)) == ring_contents(*old(r)).push(s@),
        !ok ==> ring_contents(*final(r)) == ring_contents(*old(r)),
{
    r.producer.push(s).is_ok()
}

/// Relies on ringbuf's `Consumer::iter`: copies of the lines, oldest first.
#[verifier::external_body]
fn ring_items(r: &LogRing) -> (v: Vec<String>)
    ensures
        v@.map_values(|s: String| s@) == ring_contents(*r),
{
    r.consumer.iter().cloned().collect()
}

/// The lines after adding `s`: the oldest is dropped first when the buffer is full, and nothing
/// is kept in a buffer of no room.
pub open spec fn after_push(lines: Seq<Seq<char>>, capacity: nat, s: Seq<char>) -> Seq<Seq<char>> {
    let room = if capacity <= lines.len() && lines.len() > 0 {
        lines.drop_first()
    } else {
        lines
    };
    if room.len() < capacity {
        room.push(s)
    } else {
        room
    }
}

/// The newest log lines, up to a fixed number, and whether new ones are taken in.
pub struct LogBuffer {
    ring: LogRing,
    is_buffering: bool,
}

impl View for LogBuffer {
    type V = Seq<Seq<char>>;

    closed spec fn view(&self) -> Seq<Seq<char>> {
        ring_contents(self.ring)
    }
}

impl LogBuffer {
    /// The number of lines kept at most.
    pub closed spec fn capacity(&self) -> nat {
        ring_capacity(self.ring)
    }

    /// The buffer holds no more lines than its capacity.
    pub closed spec fn wf(&self) -> bool {
        ring_contents(self.ring).len() <= ring_capacity(self.ring)
    }

    /// Whether new lines are taken in.
    pub closed spec fn buffering(&self) -> bool {
        self.is_buffering
    }

    /// An empty buffer for `size` lines.
    pub fn new(size: usize, start_buffering: bool) -> (r: LogBuffer)
        requires
            size < usize::MAX,
        ensures
            r.wf(),
            r@ == Seq::<Seq<char>>::empty(),
            r.capacity() == size,
            r.buffering() == start_buffering,
    {
        LogBuffer { ring: ring_new(size), is_buffering: start_buffering }
    }

    /// Adds a line, dropping the oldest one when the buffer is full.
    pub fn push_logstring(&mut self, logstring: String)
        requires
            old(self).wf(),
        ensures
            final(self).wf(),
            final(self)@ == after_push(old(self)@, old(self).capacity(), logstring@),
            final(self).capacity() == old(self).capacity(),
            final(self).buffering() == old(self).buffering(),
    {
        if ring_remaining(&self.ring) == 0 {
            let _ = ring_pop(&mut self.ring);
        }
        let _ = ring_push(&mut self.ring, logstring);
    }

    /// The lines held, oldest first.
    pub fn read_logstrings(&self) -> (r: Vec<String>)
        ensures
            r@.map_values(|s: String| s@) == self@,
    {
        ring_items(&self.ring)
    }

    /// Whether new lines are taken in.
    pub fn is_buffering(&self) -> (r: bool)
        ensures
            r == self.buffering(),
    {
        self.is_buffering
    }

    /// Turns the taking in of new lines on or off.
    pub fn toggle_buffering(&mut self)
        ensures
            old(self).wf() ==> final(self).wf(),
            final(self).buffering() == !old(self).buffering(),
            final(self)@ == old(self)@,
            final(self).capacity() == old(self).capacity(),
    {
        self.is_buffering = !self.is_buffering;
    }
}

/// A buffer never holds more lines than its capacity, and the line just added, if there is
/// room at all, is the newest one held.
pub proof fn lemma_push_keeps_newest(lines: Seq<Seq<char>>, capacity: nat, s: Seq<char>)
    requires
        lines.len() <= capacity,
    ensures
        after_push(lines, capacity, s).len() <= capacity,
        capacity > 0 ==> after_push(lines, capacity, s).last() == s,
        capacity > 0 && lines.len() < capacity ==> after_push(lines, capacity, s) == lines.push(s),
{
}

/// The severity of a log line.
#[derive(Clone, Copy, Debug, PartialEq, Eq, Structural)]
pub enum LogLevel {
    Debug,
    Info,
    Warn,
    Error,
    Fatal,
}

/// The severity that a level code stands for.
pub open spec fn level_of(level: i8) -> Option<LogLevel> {
    if level == 1 {
        Some(LogLevel::Debug)
    } else if level == 2 {
        Some(LogLevel::Info)
    } else if level == 4 {
        Some(LogLevel::Warn)
    } else if level == 8 {
        Some(LogLevel::Error)
    } else if level == 16 {
        Some(LogLevel::Fatal)
    } else {
        None
    }
}

/// The severity of a line with level code `level`, or `None` when the line is below
/// `min_loglevel` or its code is not a level.
pub fn log_level(level: i8, min_loglevel: i8) -> (r: Option<LogLevel>)
    ensures
        r == (if level < min_loglevel {
            None
        } else {
            level_of(level)
        }),
{
    if level < min_loglevel {
        None
    } else if level == 1 {
        Some(LogLevel::Debug)
    } else if level == 2 {
        Some(LogLevel::Info)
    } else if level == 4 {
        Some(LogLevel::Warn)
    } else if level == 8 {
        Some(LogLevel::Error)
    } else if level == 16 {
        Some(LogLevel::Fatal)
    } else {
        None
    }
}

impl LogLevel {
    /// The level's name as printed in the log pane.
    pub fn label(&self) -> (r: String)
        ensures
            r@ == (match self {
                LogLevel::Debug => "DEBUG"@,
                LogLevel::Info => "INFO"@,
                LogLevel::Warn => "WARN"@,
                LogLevel::Error => "ERROR"@,
                LogLevel::Fatal => "FATAL"@,
            }),
    {
        match self {
            LogLevel::Debug => String::from_str("DEBUG"),
            LogLevel::Info => String::from_str("INFO"),
            LogLevel::Warn => String::from_str("WARN"),
            LogLevel::Error => String::from_str("ERROR"),
            LogLevel::Fatal => String::from_str("FATAL"),
        }
    }
}

} // verus!
