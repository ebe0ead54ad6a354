use crate::dispatch::Header;
use crate::icd::{Endpoint, LedState, SleepMillis, SleptMillis, SysInfo};
use crate::io::Cursor;
use crate::registry::{DispatchEntry, HandlerKind};
use crate::text::{decimal, push_decimal};
use vstd::prelude::*;
use vstd::string::{StringExecFns, StringSliceAdditionalSpecFns};
use vstd::utf8::{encode_utf8, valid_utf8};

verus! {

/// Size of the buffer that the screen's text is composed in, in bytes.
pub const SCREEN_CAPACITY: usize = 1024;

/// Number of sleep requests that can be in flight at once.
pub const SLEEP_POOL_SIZE: u8 = 3;

/// What the blocking and inline handlers work on.
#[derive(Debug, Clone, PartialEq, Eq)]
pub struct Context {
    /// The identifier of this device.
    pub unique_id: u64,
    /// Level of the indicator's pin: high when the light is on.
    pub led_high: bool,
    /// The text that the screen shows.
    pub screen: String,
}

/// The discipline under which the handler of each endpoint runs.
pub open spec fn spec_discipline(endpoint: Endpoint) -> HandlerKind {
    match endpoint {
        Endpoint::GetUniqueId => HandlerKind::Blocking,
        Endpoint::RebootToPicoBoot => HandlerKind::Blocking,
        Endpoint::Sleep => HandlerKind::Pooled { pool_size: SLEEP_POOL_SIZE },
        Endpoint::SetLed => HandlerKind::Blocking,
        Endpoint::GetLed => HandlerKind::Blocking,
        Endpoint::SetDisplay => HandlerKind::InlineAsync,
    }
}

/// The discipline under which the handler of an endpoint runs.
pub fn discipline(endpoint: Endpoint) -> (kind: HandlerKind)
    ensures
        kind == spec_discipline(endpoint),
{
    match endpoint {
        Endpoint::GetUniqueId => HandlerKind::Blocking,
        Endpoint::RebootToPicoBoot => HandlerKind::Blocking,
        Endpoint::Sleep => HandlerKind::Pooled { pool_size: SLEEP_POOL_SIZE },
        Endpoint::SetLed => HandlerKind::Blocking,
        Endpoint::GetLed => HandlerKind::Blocking,
        Endpoint::SetDisplay => HandlerKind::InlineAsync,
    }
}

/// The row of the endpoint table for an endpoint with the given key.
pub fn entry_for(endpoint: Endpoint, key: Vec<u8>) -> (row: DispatchEntry)
    ensures
        row.key_prefix@ == key@,
        row.handler_kind == spec_discipline(endpoint),
        row.handler_ref == endpoint,
{
    DispatchEntry { key_prefix: key, handler_kind: discipline(endpoint), handler_ref: endpoint }
}

/// Answers with the identifier of the device.
pub fn unique_id(context: &mut Context, header: &Header, arg: ()) -> (id: u64)
    ensures
        id == old(context).unique_id,
        *final(context) == *old(context),
{
    context.unique_id
}

/// Switches the indicator: the pin goes high for `On` and low for `Off`.
pub fn set_led(context: &mut Context, header: &Header, arg: LedState)
    ensures
        final(context).led_high == (arg == LedState::On),
        final(context).unique_id == old(context).unique_id,
        final(context).screen == old(context).screen,
{
    match arg {
        LedState::Off => {
            context.led_high = false;
        },
        LedState::On => {
            context.led_high = true;
        },
    }
}

/// Reads the indicator back: `Off` while the pin is low, `On` otherwise.
pub fn get_led(context: &mut Context, header: &Header, arg: ()) -> (state: LedState)
    ensures
        state == if old(context).led_high {
            LedState::On
        } else {
            LedState::Off
        },
        *final(context) == *old(context),
{
    if context.led_high {
        LedState::On
    } else {
        LedState::Off
    }
}

/// The pieces that the screen's text is put together from, in their order.
pub open spec fn screen_pieces(
    host_name: Seq<char>,
    cpu_freq_text: Seq<char>,
    cpu_usage: u8,
    memory_usage: u64,
    total_memory: u64,
    scroll_text: Seq<char>,
) -> Seq<Seq<char>> {
    seq![
        host_name,
        seq!['\n', 'C', 'P', 'U', ':'],
        cpu_freq_text,
        seq![' '],
        decimal(cpu_usage as nat),
        seq!['%', ' ', '\n', 'R', 'a', 'm', ':'],
        decimal(memory_usage as nat),
        seq!['/'],
        decimal(total_memory as nat),
        seq!['\n', '\n'],
        scroll_text,
    ]
}

/// What comes of writing pieces into a buffer.
pub struct Rendering {
    /// The text in the buffer.
    pub text: Seq<char>,
    /// Whether every piece was written.
    pub complete: bool,
}

/// Writing `pieces` one after the other into a buffer of `capacity` bytes. A
/// piece is written whole or not at all; it is written when its encoding is
/// shorter than what is left of the buffer, and with the first piece that is
/// not, writing ends.
pub open spec fn render(pieces: Seq<Seq<char>>, capacity: nat) -> Rendering
    decreases pieces.len(),
{
    if pieces.len() == 0 {
        Rendering { text: Seq::empty(), complete: true }
    } else {
        let before = render(pieces.drop_last(), capacity);
        if before.complete && encode_utf8(pieces.last()).len() < capacity - encode_utf8(
            before.text,
        ).len() {
            Rendering { text: before.text + pieces.last(), complete: true }
        } else {
            Rendering { text: before.text, complete: false }
        }
    }
}

/// The text that comes of writing `pieces` into a buffer of `capacity` bytes.
pub open spec fn rendered(pieces: Seq<Seq<char>>, capacity: nat) -> Seq<char> {
    render(pieces, capacity).text
}

/// The encoding of a text in two parts is the two encodings one after the
/// other.
pub proof fn lemma_encode_concat(a: Seq<char>, b: Seq<char>)
    ensures
        encode_utf8(a + b) == encode_utf8(a) + encode_utf8(b),
    decreases a.len(),
{
    if a.len() == 0 {
        assert(a + b =~= b);
        assert(encode_utf8(a) + encode_utf8(b) =~= encode_utf8(b));
    } else {
        lemma_encode_concat(a.drop_first(), b);
        assert((a + b).drop_first() =~= a.drop_first() + b);
        assert((a + b)[0] == a[0]);
        assert(encode_utf8(a + b) =~= encode_utf8(a) + encode_utf8(b));
    }
}

/// The text always fits the buffer with a byte to spare, and into a buffer
/// without room nothing is written.
pub proof fn lemma_rendered_fits(pieces: Seq<Seq<char>>, capacity: nat)
    ensures
        capacity > 0 ==> encode_utf8(rendered(pieces, capacity)).len() < capacity,
        capacity == 0 ==> rendered(pieces, capacity).len() == 0,
    decreases pieces.len(),
{
    if pieces.len() > 0 {
        lemma_rendered_fits(pieces.drop_last(), capacity);
        lemma_encode_concat(rendered(pieces.drop_last(), capacity), pieces.last());
    }
}

/// Writes one more piece, unless an earlier one was refused.
fn write_piece(cursor: &mut Cursor, piece: &str, ok: bool, Ghost(done): Ghost<Seq<Seq<char>>>) -> (still: bool)
    requires
        old(cursor)@.wf(),
        old(cursor)@.written() == encode_utf8(rendered(done, old(cursor)@.bytes.len())),
        ok == render(done, old(cursor)@.bytes.len()).complete,
    ensures
        final(cursor)@.wf(),
        final(cursor)@.bytes.len() == old(cursor)@.bytes.len(),
        final(cursor)@.written() == encode_utf8(
            rendered(done.push(piece@), old(cursor)@.bytes.len()),
        ),
        still == render(done.push(piece@), old(cursor)@.bytes.len()).complete,
{
    let ghost capacity = cursor@.bytes.len();
    proof {
        assert(done.push(piece@).drop_last() =~= done);
        assert(done.push(piece@).last() == piece@);
        lemma_encode_concat(rendered(done, capacity), piece@);
    }
    if ok {
        cursor.write_str(piece).is_ok()
    } else {
        false
    }
}

/// Writes the decimal numeral of `n` as one more piece.
fn write_number(cursor: &mut Cursor, n: u64, ok: bool, Ghost(done): Ghost<Seq<Seq<char>>>) -> (still: bool)
    requires
        old(cursor)@.wf(),
        old(cursor)@.written() == encode_utf8(rendered(done, old(cursor)@.bytes.len())),
        ok == render(done, old(cursor)@.bytes.len()).complete,
    ensures
        final(cursor)@.wf(),
        final(cursor)@.bytes.len() == old(cursor)@.bytes.len(),
        final(cursor)@.written() == encode_utf8(
            rendered(done.push(decimal(n as nat)), old(cursor)@.bytes.len()),
        ),
        still == render(done.push(decimal(n as nat)), old(cursor)@.bytes.len()).complete,
{
    let mut numeral = String::new();
    push_decimal(&mut numeral, n);
    write_piece(cursor, numeral.as_str(), ok, Ghost(done))
}

/// Composes the text of the screen from a telemetry message, in a buffer of
/// `SCREEN_CAPACITY` bytes.
pub fn render_screen(info: &SysInfo<'_>) -> (text: String)
    ensures
        text@ == rendered(
            screen_pieces(
                info.host_name@,
                info.cpu_freq_text@,
                info.cpu_usage,
                info.memory_usage,
                info.total_memory,
                info.scroll_text@,
            ),
            SCREEN_CAPACITY as nat,
        ),
{
    let mut buffer: Vec<u8> = Vec::new();
    let mut i: usize = 0;
    while i < SCREEN_CAPACITY
        invariant
            i <= SCREEN_CAPACITY,
            buffer@.len() == i,
        decreases SCREEN_CAPACITY - i,
    {
        buffer.push(0);
        i += 1;
    }
    let mut cursor = Cursor::new(buffer.as_mut_slice());
    let ghost pieces = screen_pieces(
        info.host_name@,
        info.cpu_freq_text@,
        info.cpu_usage,
        info.memory_usage,
        info.total_memory,
        info.scroll_text@,
    );
    let ghost p0 = Seq::<Seq<char>>::empty();
    proof {
        reveal_strlit("\nCPU:");
        reveal_strlit(" ");
        reveal_strlit("% \nRam:");
        reveal_strlit("/");
        reveal_strlit("\n\n");
        assert(cursor@.written() =~= encode_utf8(rendered(p0, 1024)));
    }
    let ok = write_piece(&mut cursor, info.host_name, true, Ghost(p0));
    let ghost p1 = p0.push(pieces[0]);
    let ok = write_piece(&mut cursor, "\nCPU:", ok, Ghost(p1));
    assert("\nCPU:"@ =~= pieces[1]);
    let ghost p2 = p1.push(pieces[1]);
    let ok = write_piece(&mut cursor, info.cpu_freq_text, ok, Ghost(p2));
    let ghost p3 = p2.push(pieces[2]);
    let ok = write_piece(&mut cursor, " ", ok, Ghost(p3));
    assert(" "@ =~= pieces[3]);
    let ghost p4 = p3.push(pieces[3]);
    let ok = write_number(&mut cursor, info.cpu_usage as u64, ok, Ghost(p4));
    let ghost p5 = p4.push(pieces[4]);
    let ok = write_piece(&mut cursor, "% \nRam:", ok, Ghost(p5));
    assert("% \nRam:"@ =~= pieces[5]);
    let ghost p6 = p5.push(pieces[5]);
    let ok = write_number(&mut cursor, info.memory_usage, ok, Ghost(p6));
    let ghost p7 = p6.push(pieces[6]);
    let ok = write_piece(&mut cursor, "/", ok, Ghost(p7));
    assert("/"@ =~= pieces[7]);
    let ghost p8 = p7.push(pieces[7]);
    let ok = write_number(&mut cursor, info.total_memory, ok, Ghost(p8));
    let ghost p9 = p8.push(pieces[8]);
    let ok = write_piece(&mut cursor, "\n\n", ok, Ghost(p9));
    assert("\n\n"@ =~= pieces[9]);
    let ghost p10 = p9.push(pieces[9]);
    let _ = write_piece(&mut cursor, info.scroll_text, ok, Ghost(p10));
    let ghost p11 = p10.push(pieces[10]);
    proof {
        assert(p11 =~= pieces);
        vstd::utf8::encode_utf8_valid_utf8(rendered(pieces, 1024));
    }
    let text = cursor.as_str();
    proof {
        vstd::utf8::encode_utf8_decode_utf8(text@);
        vstd::utf8::encode_utf8_decode_utf8(rendered(pieces, 1024));
    }
    String::from_str(text)
}

/// Puts a telemetry message on the screen: the text composed from it replaces
/// what the screen showed.
pub fn set_screen_text(context: &mut Context, header: &Header, arg: SysInfo<'_>)
    ensures
        final(context).screen@ == rendered(
            screen_pieces(
                arg.host_name@,
                arg.cpu_freq_text@,
                arg.cpu_usage,
                arg.memory_usage,
                arg.total_memory,
                arg.scroll_text@,
            ),
            SCREEN_CAPACITY as nat,
        ),
        final(context).unique_id == old(context).unique_id,
        final(context).led_high == old(context).led_high,
{
    context.screen = render_screen(&arg);
}

/// The lines that the sleep handler logs.
#[derive(Debug, Clone, Copy, PartialEq, Eq, Structural)]
pub enum SleepLog {
    Starting,
    Finished,
}

impl SleepLog {
    /// The text of the line.
    pub fn text(self) -> (line: &'static str)
        ensures
            line@ == match self {
                SleepLog::Starting => "Starting sleep..."@,
                SleepLog::Finished => "Finished sleep"@,
            },
    {
        match self {
            SleepLog::Starting => "Starting sleep...",
            SleepLog::Finished => "Finished sleep",
        }
    }
}

/// How far a sleep request has come.
#[derive(Debug, Clone, Copy, PartialEq, Eq, Structural)]
pub enum SleepStage {
    /// Admitted to a slot; nothing done yet.
    Accepted,
    /// The start was logged; the clock runs from here.
    Announced,
    /// The time asked for has passed.
    Slept,
    /// The end was logged.
    Reported,
    /// The reply is out.
    Replied,
}

/// What the task of a sleep request does next.
#[derive(Debug, Clone, Copy, PartialEq, Eq, Structural)]
pub enum SleepAction {
    /// Send a log line; go on whether or not it could be written.
    Log { line: SleepLog },
    /// Wait for this many milliseconds.
    Sleep { millis: u64 },
    /// Send the reply; go on whether or not it could be written.
    Reply { sequence_no: u32, slept: SleptMillis },
    /// End the task and give its slot back.
    Finish,
}

/// One step of a sleep request.
#[derive(Debug, Clone, Copy, PartialEq, Eq, Structural)]
pub struct SleepStep {
    pub stage: SleepStage,
    pub action: SleepAction,
}

/// The sleep handler as a relation. `elapsed_millis` counts from the moment
/// the start was logged; it is read once, for the reply, and is then cut down
/// to its lowest 16 bits.
pub open spec fn spec_sleep_handler(
    stage: SleepStage,
    sequence_no: u32,
    arg: SleepMillis,
    elapsed_millis: u64,
) -> SleepStep {
    match stage {
        SleepStage::Accepted => SleepStep {
            stage: SleepStage::Announced,
            action: SleepAction::Log { line: SleepLog::Starting },
        },
        SleepStage::Announced => SleepStep {
            stage: SleepStage::Slept,
            action: SleepAction::Sleep { millis: arg.millis as u64 },
        },
        SleepStage::Slept => SleepStep {
            stage: SleepStage::Reported,
            action: SleepAction::Log { line: SleepLog::Finished },
        },
        SleepStage::Reported => SleepStep {
            stage: SleepStage::Replied,
            action: SleepAction::Reply {
                sequence_no,
                slept: SleptMillis { millis: (elapsed_millis % 0x1_0000) as u16 },
            },
        },
        SleepStage::Replied => SleepStep {
            stage: SleepStage::Replied,
            action: SleepAction::Finish,
        },
    }
}

/// The pooled handler of the sleep endpoint, one step at a time: it logs,
/// sleeps, logs again and replies under the number of its request with the
/// time that has passed.
pub fn sleep_handler(stage: SleepStage, header: &Header, arg: SleepMillis, elapsed_millis: u64)
    -> (step: SleepStep)
    ensures
        step == spec_sleep_handler(stage, header.sequence_no, arg, elapsed_millis),
{
    match stage {
        SleepStage::Accepted => SleepStep {
            stage: SleepStage::Announced,
            action: SleepAction::Log { line: SleepLog::Starting },
        },
        SleepStage::Announced => SleepStep {
            stage: SleepStage::Slept,
            action: SleepAction::Sleep { millis: arg.millis as u64 },
        },
        SleepStage::Slept => SleepStep {
            stage: SleepStage::Reported,
            action: SleepAction::Log { line: SleepLog::Finished },
        },
        SleepStage::Reported => SleepStep {
            stage: SleepStage::Replied,
            action: SleepAction::Reply {
                sequence_no: header.sequence_no,
                slept: SleptMillis { millis: (elapsed_millis % 0x1_0000) as u16 },
            },
        },
        SleepStage::Replied => SleepStep {
            stage: SleepStage::Replied,
            action: SleepAction::Finish,
        },
    }
}

} // verus!
