use vstd::prelude::*;
use vstd::slice::slice_subrange;
use vstd::string::StringSliceAdditionalSpecFns;
use vstd::utf8::{encode_utf8, valid_utf8};

verus! {

/// What a cursor holds: the whole buffer and how much of it is written.
pub struct CursorView {
    pub bytes: Seq<u8>,
    pub pos: nat,
}

impl CursorView {
    /// The write position lies inside the buffer.
    pub open spec fn wf(self) -> bool {
        self.pos <= self.bytes.len()
    }

    /// The bytes written so far.
    pub open spec fn written(self) -> Seq<u8> {
        self.bytes.subrange(0, self.pos as int)
    }

    /// Whether a piece of `len` bytes is taken. One byte of the buffer always
    /// stays free: a piece that would fill the buffer to its end is refused.
    pub open spec fn accepts(self, len: nat) -> bool {
        len < self.bytes.len() - self.pos
    }

    /// The cursor after `piece` has been copied to the write position.
    pub open spec fn append(self, piece: Seq<u8>) -> CursorView {
        CursorView {
            bytes: self.bytes.subrange(0, self.pos as int) + piece + self.bytes.subrange(
                (self.pos + piece.len()) as int,
                self.bytes.len() as int,
            ),
            pos: self.pos + piece.len(),
        }
    }
}

/// The cursor refused a piece because it does not fit into what is left of the
/// buffer.
#[derive(Clone, Copy, Debug, PartialEq, Eq)]
pub struct BufferFull;

/// A write position over a caller-supplied byte buffer.
pub struct Cursor<'a> {
    pub buf: &'a mut [u8],
    pos: usize,
}

impl<'a> View for Cursor<'a> {
    type V = CursorView;

    closed spec fn view(&self) -> CursorView {
        CursorView { bytes: self.buf@, pos: self.pos as nat }
    }
}

/// `core::str::from_utf8` of the standard library: it accepts exactly the byte
/// sequences that are valid UTF-8, and the text it returns has the given bytes
/// as its encoding.
#[verifier::external_body]
fn str_from_utf8<'b>(bytes: &'b [u8]) -> (text: Option<&'b str>)
    ensures
        text is Some <==> valid_utf8(bytes@),
        text matches Some(s) ==> s.spec_bytes() == bytes@,
{
    core::str::from_utf8(bytes).ok()
}

impl<'a> Cursor<'a> {
    /// A cursor at the start of `buf`; the buffer's contents are kept.
    pub fn new(buf: &'a mut [u8]) -> (c: Cursor<'a>)
        ensures
            c@.pos == 0,
            c@.bytes == old(buf)@,
            c@.wf(),
    {
        Cursor { buf, pos: 0 }
    }

    /// Number of bytes written so far.
    pub fn position(&self) -> (pos: usize)
        ensures
            pos == self@.pos,
    {
        self.pos
    }

    /// Zeroes the whole buffer and moves the write position to its start.
    pub fn clear(&mut self)
        ensures
            final(self)@.pos == 0,
            final(self)@.bytes == Seq::new(old(self)@.bytes.len(), |i: int| 0u8),
            final(self)@.wf(),
    {
        let n: usize = self.buf.len();
        let mut i: usize = 0;
        while i < n
            invariant
                n == self.buf@.len(),
                n == old(self).buf@.len(),
                i <= n,
                forall|j: int| 0 <= j < i ==> self.buf@[j] == 0u8,
            decreases n - i,
        {
            self.buf[i] = 0;
            i += 1;
        }
        self.pos = 0;
        assert(self@.bytes =~= Seq::new(old(self)@.bytes.len(), |i: int| 0u8));
    }

    /// The written part of the buffer as text.
    pub fn as_str(&self) -> (text: &str)
        requires
            self@.wf(),
            valid_utf8(self@.written()),
        ensures
            text.spec_bytes() == self@.written(),
    {
        let written = slice_subrange(&*self.buf, 0, self.pos);
        let text = str_from_utf8(written);
        text.unwrap()
    }

    /// Copies `s` to the write position if it fits with a byte to spare, and
    /// leaves the cursor untouched if it does not.
    pub fn write_str(&mut self, s: &str) -> (done: Result<(), BufferFull>)
        requires
            old(self)@.wf(),
        ensures
            done is Ok <==> old(self)@.accepts(s.spec_bytes().len()),
            done is Ok ==> final(self)@ == old(self)@.append(s.spec_bytes()),
            done is Err ==> final(self)@ == old(self)@,
            final(self)@.wf(),
            done is Ok ==> final(self)@.written() == old(self)@.written() + s.spec_bytes(),
            valid_utf8(old(self)@.written()) ==> valid_utf8(final(self)@.written()),
    {
        let piece = s.as_bytes();
        let len: usize = piece.len();
        let cap: usize = self.buf.len();
        if len < cap - self.pos {
            let start: usize = self.pos;
            let mut i: usize = 0;
            while i < len
                invariant
                    i <= len,
                    len == piece@.len(),
                    start == self.pos,
                    start + len < cap,
                    cap == self.buf@.len(),
                    self.buf@.len() == old(self).buf@.len(),
                    forall|j: int| 0 <= j < start ==> self.buf@[j] == old(self).buf@[j],
                    forall|j: int| 0 <= j < i ==> self.buf@[start + j] == piece@[j],
                    forall|j: int|
                        start + i <= j < self.buf@.len() ==> self.buf@[j] == old(self).buf@[j],
                decreases len - i,
            {
                self.buf[start + i] = piece[i];
                i += 1;
            }
            self.pos = start + len;
            proof {
                assert(self@.bytes =~= old(self)@.append(s.spec_bytes()).bytes);
                assert(self@.written() =~= old(self)@.written() + s.spec_bytes());
                if valid_utf8(old(self)@.written()) {
                    vstd::utf8::encode_utf8_valid_utf8(s@);
                    vstd::utf8::valid_utf8_concat(old(self)@.written(), s.spec_bytes());
                }
            }
            Ok(())
        } else {
            Err(BufferFull)
        }
    }
}

} // verus!
