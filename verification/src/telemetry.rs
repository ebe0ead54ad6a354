use crate::icd::SysInfo;
use crate::text::{format_frequency, frequency_text};
use vstd::prelude::*;
use vstd::string::{StrSliceExecFns, StringExecFns};

verus! {

/// Text of the marquee that the host sends along with its figures.
pub const SCROLL_TEXT: &'static str = "Poststation.rs";

/// Width of the marquee's lead-in, in characters.
pub const SCROLL_WINDOW: u32 = 18;

/// Time between two telemetry ticks, in milliseconds.
pub const TICK_MILLIS: u64 = 500;

/// `n` blanks.
pub open spec fn blanks(n: nat) -> Seq<char> {
    Seq::new(n, |i: int| ' ')
}

/// A marquee: a text that scrolls to the left through a window, entering
/// behind a lead-in of blanks.
pub struct ScrollView {
    pub text: Seq<char>,
    pub window_length: nat,
    pub position: nat,
}

impl ScrollView {
    /// Number of steps after which the marquee starts over.
    pub open spec fn period(self) -> nat {
        self.text.len() + self.window_length
    }

    /// The position lies within one period, and the period can be counted in
    /// 32 bits. A marquee of period zero rests at position zero.
    pub open spec fn wf(self) -> bool {
        &&& self.period() <= u32::MAX
        &&& (self.position < self.period() || self.position == 0)
    }

    /// What is visible. While the position is inside the lead-in, the window
    /// shows the blanks that are left of it, followed by the start of the text
    /// as far as the position has come; that is the whole text once the
    /// position has passed the text's length, which happens where the lead-in
    /// is longer than the text. From the end of the lead-in on the window shows
    /// the rest of the text, shorter by one character with every step.
    pub open spec fn window(self) -> Seq<char> {
        if self.position < self.window_length {
            let shown = if self.position < self.text.len() {
                self.position
            } else {
                self.text.len()
            };
            blanks((self.window_length - self.position) as nat) + self.text.subrange(
                0,
                shown as int,
            )
        } else {
            self.text.subrange(self.position - self.window_length, self.text.len() as int)
        }
    }

    /// One step further; after the last position of a period comes the first.
    pub open spec fn advance(self) -> ScrollView {
        ScrollView {
            position: if self.position + 1 < self.period() {
                self.position + 1
            } else {
                0
            },
            ..self
        }
    }

    /// `n` steps further.
    pub open spec fn advance_by(self, n: nat) -> ScrollView
        decreases n,
    {
        if n == 0 {
            self
        } else {
            self.advance().advance_by((n - 1) as nat)
        }
    }
}

/// Stepping keeps a marquee well formed.
pub proof fn lemma_advance_wf(s: ScrollView)
    requires
        s.wf(),
    ensures
        s.advance().wf(),
        s.advance().period() == s.period(),
{
}

/// After `n` steps the position has moved on by `n`, counted modulo the
/// period, and nothing else has changed.
pub proof fn lemma_advance_by(s: ScrollView, n: nat)
    requires
        s.wf(),
        s.period() > 0,
    ensures
        s.advance_by(n) == (ScrollView {
            position: (s.position + n) % s.period(),
            ..s
        }),
    decreases n,
{
    let m = s.period();
    if n == 0 {
        assert((s.position + 0nat) % m == s.position) by (nonlinear_arith)
            requires
                0 <= s.position < m,
        ;
    } else {
        let t = s.advance();
        lemma_advance_by(t, (n - 1) as nat);
        if s.position + 1 < s.period() {
            assert(t.position + (n - 1) as nat == s.position + n);
        } else {
            assert((0nat + (n - 1) as nat) % m == (s.position + n) % m) by (nonlinear_arith)
                requires
                    s.position + 1 == m,
                    m > 0,
                    n >= 1,
            ;
        }
    }
}

/// The window is never longer than the longer of the lead-in and the text, so
/// the marquee's part of a message has a size that is known beforehand.
pub proof fn lemma_window_bounded(s: ScrollView)
    requires
        s.wf(),
    ensures
        s.window().len() <= s.window_length || s.window().len() <= s.text.len(),
        s.position < s.window_length ==> s.window().len() <= s.window_length,
        s.position >= s.window_length ==> s.window().len() == s.text.len() - (s.position
            - s.window_length),
{
}

/// A marquee shows the same window again after a whole period of steps: it is
/// then in the very state it started from.
pub proof fn lemma_scroll_periodic(s: ScrollView)
    requires
        s.wf(),
    ensures
        s.advance_by(s.period()) == s,
        s.advance_by(s.period()).window() == s.window(),
{
    if s.period() > 0 {
        lemma_advance_by(s, s.period());
        let m = s.period();
        assert((s.position + m) % m == s.position) by (nonlinear_arith)
            requires
                0 <= s.position < m,
        ;
    } else {
    }
}

/// The marquee of the telemetry message.
#[derive(Debug, PartialEq, Eq)]
pub struct ScrollState {
    text: String,
    window_length: u32,
    position: u32,
}

impl View for ScrollState {
    type V = ScrollView;

    closed spec fn view(&self) -> ScrollView {
        ScrollView {
            text: self.text@,
            window_length: self.window_length as nat,
            position: self.position as nat,
        }
    }
}

impl Clone for ScrollState {
    fn clone(&self) -> (copy: ScrollState)
        ensures
            copy@ == self@,
    {
        proof {
            use_type_invariant(self);
        }
        ScrollState {
            text: self.text.clone(),
            window_length: self.window_length,
            position: self.position,
        }
    }
}

impl ScrollState {
    #[verifier::type_invariant]
    spec fn inv(self) -> bool {
        self@.wf()
    }

    /// A marquee at position zero. There is none where the period, the text's
    /// length in characters plus the window's, cannot be counted in 32 bits.
    pub fn new(text: String, window_length: u32) -> (made: Option<ScrollState>)
        ensures
            made is Some <==> text@.len() + window_length <= u32::MAX,
            made matches Some(s) ==> s@ == (ScrollView {
                text: text@,
                window_length: window_length as nat,
                position: 0,
            }) && s@.wf(),
    {
        let len: usize = text.as_str().unicode_len();
        if len > 0xffff_ffff || len as u64 + window_length as u64 > 0xffff_ffff {
            None
        } else {
            Some(ScrollState { text, window_length, position: 0 })
        }
    }

    /// The text that scrolls.
    pub fn text(&self) -> (t: &str)
        ensures
            t@ == self@.text,
            self@.wf(),
    {
        proof {
            use_type_invariant(self);
        }
        self.text.as_str()
    }

    /// Length of the lead-in of blanks.
    pub fn window_length(&self) -> (n: u32)
        ensures
            n == self@.window_length,
    {
        self.window_length
    }

    /// Number of steps taken in the current period.
    pub fn position(&self) -> (n: u32)
        ensures
            n == self@.position,
    {
        self.position
    }

    /// What is visible at the current position.
    pub fn window(&self) -> (w: String)
        ensures
            w@ == self@.window(),
            self@.wf(),
    {
        proof {
            use_type_invariant(self);
        }
        let text = self.text.as_str();
        let len: usize = text.unicode_len();
        let position: usize = self.position as usize;
        if self.position < self.window_length {
            let lead: u32 = self.window_length - self.position;
            let mut w = String::new();
            let mut i: u32 = 0;
            while i < lead
                invariant
                    i <= lead,
                    w@ == blanks(i as nat),
                decreases lead - i,
            {
                w.push(' ');
                i += 1;
                assert(w@ =~= blanks(i as nat));
            }
            let shown: usize = if position < len {
                position
            } else {
                len
            };
            w.append(text.substring_char(0, shown));
            w
        } else {
            let start: usize = (self.position - self.window_length) as usize;
            String::from_str(text.substring_char(start, len))
        }
    }

    /// Moves the marquee one step on.
    pub fn advance(&mut self)
        ensures
            final(self)@ == old(self)@.advance(),
            old(self)@.wf(),
            final(self)@.wf(),
    {
        proof {
            use_type_invariant(&*self);
        }
        let len: usize = self.text.as_str().unicode_len();
        let period: u64 = len as u64 + self.window_length as u64;
        if self.position as u64 + 1 < period {
            self.position = self.position + 1;
        } else {
            self.position = 0;
        }
    }
}

/// The sum of a sequence of numbers.
pub open spec fn sum(s: Seq<u64>) -> nat
    decreases s.len(),
{
    if s.len() == 0 {
        0
    } else {
        sum(s.drop_last()) + s.last() as nat
    }
}

/// The mean of a sequence of numbers, rounded down.
pub open spec fn mean(s: Seq<u64>) -> nat
    recommends
        s.len() > 0,
{
    sum(s) / s.len()
}

proof fn lemma_sum_bound(s: Seq<u64>)
    ensures
        sum(s) <= s.len() * u64::MAX,
    decreases s.len(),
{
    if s.len() > 0 {
        lemma_sum_bound(s.drop_last());
        assert(sum(s.drop_last()) + s.last() <= s.len() * u64::MAX) by (nonlinear_arith)
            requires
                sum(s.drop_last()) <= (s.len() - 1) * u64::MAX,
                s.last() <= u64::MAX,
                s.len() >= 1,
        ;
    }
}

/// The mean of the clock rates of all processor cores, rounded down.
pub fn average_frequency(frequencies: &Vec<u64>) -> (avg: u64)
    requires
        frequencies@.len() > 0,
    ensures
        avg == mean(frequencies@),
{
    let n: usize = frequencies.len();
    let mut total: u128 = 0;
    let mut i: usize = 0;
    while i < n
        invariant
            i <= n,
            n == frequencies@.len(),
            total == sum(frequencies@.subrange(0, i as int)),
            total <= i * u64::MAX,
        decreases n - i,
    {
        proof {
            let next = frequencies@.subrange(0, i + 1);
            assert(next.drop_last() =~= frequencies@.subrange(0, i as int));
            assert(next.last() == frequencies@[i as int]);
            lemma_sum_bound(next);
            assert((i + 1) * u64::MAX <= usize::MAX * u64::MAX) by (nonlinear_arith)
                requires
                    i + 1 <= usize::MAX,
            ;
            assert(usize::MAX * u64::MAX <= u64::MAX * u64::MAX) by (nonlinear_arith)
                requires
                    usize::MAX <= u64::MAX,
            ;
        }
        total = total + frequencies[i] as u128;
        i += 1;
    }
    proof {
        assert(frequencies@.subrange(0, n as int) =~= frequencies@);
        assert(total / (n as u128) <= u64::MAX) by (nonlinear_arith)
            requires
                total <= n * u64::MAX,
                n > 0,
        ;
    }
    (total / (n as u128)) as u64
}

/// A number of bytes in mebibytes, rounded to the nearest, a half going up.
pub open spec fn mebibytes(bytes: nat) -> nat {
    (bytes + 524288) / 1048576
}

/// Converts a number of bytes to mebibytes, rounded to the nearest.
pub fn to_mebibytes(bytes: u64) -> (mib: u64)
    ensures
        mib == mebibytes(bytes as nat),
{
    let carry: u64 = if bytes % 1048576 >= 524288 {
        1
    } else {
        0
    };
    bytes / 1048576 + carry
}

/// What the host measured at one tick.
#[derive(Debug, Clone, PartialEq, Eq)]
pub struct Sample {
    /// Load of all cores together, in percent.
    pub cpu_usage: u8,
    /// Clock rate of each core, in megahertz.
    pub cpu_frequencies: Vec<u64>,
    /// Memory in use, in bytes.
    pub used_memory: u64,
    /// Memory installed, in bytes.
    pub total_memory: u64,
}

/// One telemetry message with the sequence number it is sent under.
#[derive(Debug, Clone, PartialEq, Eq)]
pub struct Report {
    pub sequence_no: u32,
    pub host_name: String,
    pub cpu_freq_text: String,
    pub cpu_usage: u8,
    pub memory_usage: u64,
    pub total_memory: u64,
    pub scroll_text: String,
}

impl Report {
    /// The message in the form that goes over the wire.
    pub fn sys_info(&self) -> (info: SysInfo<'_>)
        ensures
            info.host_name@ == self.host_name@,
            info.cpu_freq_text@ == self.cpu_freq_text@,
            info.cpu_usage == self.cpu_usage,
            info.memory_usage == self.memory_usage,
            info.total_memory == self.total_memory,
            info.scroll_text@ == self.scroll_text@,
    {
        SysInfo {
            host_name: self.host_name.as_str(),
            cpu_freq_text: self.cpu_freq_text.as_str(),
            cpu_usage: self.cpu_usage,
            memory_usage: self.memory_usage,
            total_memory: self.total_memory,
            scroll_text: self.scroll_text.as_str(),
        }
    }
}

/// State of the telemetry producer between two ticks.
pub struct TelemetryView {
    pub host_name: Seq<char>,
    pub scroll: ScrollView,
    pub sequence_no: u32,
}

/// The number that follows `n`; after the largest comes zero.
pub open spec fn next_sequence_no(n: u32) -> u32 {
    if n == u32::MAX {
        0
    } else {
        (n + 1) as u32
    }
}

/// The telemetry producer: it turns each sample into the message of that tick.
#[derive(Debug, Clone, PartialEq, Eq)]
pub struct Telemetry {
    host_name: String,
    scroll: ScrollState,
    sequence_no: u32,
}

impl View for Telemetry {
    type V = TelemetryView;

    closed spec fn view(&self) -> TelemetryView {
        TelemetryView {
            host_name: self.host_name@,
            scroll: self.scroll@,
            sequence_no: self.sequence_no,
        }
    }
}

impl Telemetry {
    /// A producer that has sent nothing yet.
    pub fn new(host_name: String, scroll: ScrollState) -> (t: Telemetry)
        ensures
            t@ == (TelemetryView { host_name: host_name@, scroll: scroll@, sequence_no: 0 }),
            t@.scroll.wf(),
    {
        proof {
            use_type_invariant(&scroll);
        }
        Telemetry { host_name, scroll, sequence_no: 0 }
    }

    /// The sequence number that the next message will carry.
    pub fn sequence_no(&self) -> (n: u32)
        ensures
            n == self@.sequence_no,
    {
        self.sequence_no
    }

    /// The message of one tick. It carries the current sequence number and the
    /// window of the marquee as it stands; afterwards the sequence number is
    /// one higher and the marquee one step on. Whether the message reaches the
    /// device has no part in this: the next tick does not look back.
    pub fn tick(&mut self, sample: &Sample) -> (report: Report)
        requires
            sample.cpu_frequencies@.len() > 0,
        ensures
            report.sequence_no == old(self)@.sequence_no,
            report.host_name@ == old(self)@.host_name,
            report.cpu_freq_text@ == frequency_text(mean(sample.cpu_frequencies@)),
            report.cpu_usage == sample.cpu_usage,
            report.memory_usage == mebibytes(sample.used_memory as nat),
            report.total_memory == mebibytes(sample.total_memory as nat),
            report.scroll_text@ == old(self)@.scroll.window(),
            final(self)@ == (TelemetryView {
                host_name: old(self)@.host_name,
                scroll: old(self)@.scroll.advance(),
                sequence_no: next_sequence_no(old(self)@.sequence_no),
            }),
            old(self)@.scroll.wf(),
            final(self)@.scroll.wf(),
    {
        let report = Report {
            sequence_no: self.sequence_no,
            host_name: self.host_name.clone(),
            cpu_freq_text: format_frequency(average_frequency(&sample.cpu_frequencies)),
            cpu_usage: sample.cpu_usage,
            memory_usage: to_mebibytes(sample.used_memory),
            total_memory: to_mebibytes(sample.total_memory),
            scroll_text: self.scroll.window(),
        };
        self.scroll.advance();
        self.sequence_no = self.sequence_no.wrapping_add(1);
        report
    }
}

} // verus!
