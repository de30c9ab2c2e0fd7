//! Terminal (TTY) line discipline over a byte-oriented device.
//!
//! Received bytes are fed with [`Tty::receive_byte`], which applies the input flags,
//! canonical line editing and echo configured in [`Termios`]. Readers drain the ready
//! queue with [`Tty::read`]; writers post-process output with [`Tty::write`].
//!
//! In canonical mode (`ICANON`) bytes accumulate in an edit buffer until a newline or the
//! EOF character commits the line. An EOF character on an empty line makes the next read
//! return end-of-file; on a non-empty line it commits the line without a newline.
use vstd::prelude::*;
use std::collections::VecDeque;

verus! {

/// Maximum length of the canonical edit buffer (bytes).
pub const LINE_MAX: usize = 256;

/// Cap on the ready queue delivered to readers; further single-byte input is dropped.
pub const READY_CAP: usize = 512;

/// ASCII backspace, echoed when erasing.
pub const BACKSPACE: u8 = 0x08;

/// Whether all bits of `flag` are set in `bits`.
pub open spec fn has(bits: u32, flag: u32) -> bool {
    bits & flag == flag
}

/// Input processing flags ([`Termios::iflag`]).
#[derive(Clone, Copy)]
pub struct IFlags {
    bits: u32,
}

impl IFlags {
    /// Translate CR to NL on input.
    pub const ICRNL: u32 = 1;
    /// Discard CR on input (checked before `ICRNL`).
    pub const IGNCR: u32 = 2;

    /// The raw flag bits.
    pub closed spec fn view_bits(&self) -> u32 {
        self.bits
    }

    /// Builds flags from raw bits, dropping unknown bits.
    pub fn from_bits_truncate(bits: u32) -> (r: Self)
        ensures
            r.view_bits() == bits & 3,
    {
        IFlags { bits: bits & 3 }
    }

    /// Returns the raw flag bits.
    pub fn bits(&self) -> (r: u32)
        ensures
            r == self.view_bits(),
    {
        self.bits
    }

    /// Whether all bits of `flag` are set.
    pub fn contains(&self, flag: u32) -> (r: bool)
        ensures
            r == has(self.view_bits(), flag),
    {
        self.bits & flag == flag
    }
}

/// Output post-processing flags ([`Termios::oflag`]).
#[derive(Clone, Copy)]
pub struct OFlags {
    bits: u32,
}

impl OFlags {
    /// Enable output post-processing.
    pub const OPOST: u32 = 1;
    /// Translate NL to CR-NL on output (requires `OPOST`).
    pub const ONLCR: u32 = 2;

    /// The raw flag bits.
    pub closed spec fn view_bits(&self) -> u32 {
        self.bits
    }

    /// Builds flags from raw bits, dropping unknown bits.
    pub fn from_bits_truncate(bits: u32) -> (r: Self)
        ensures
            r.view_bits() == bits & 3,
    {
        OFlags { bits: bits & 3 }
    }

    /// Returns the raw flag bits.
    pub fn bits(&self) -> (r: u32)
        ensures
            r == self.view_bits(),
    {
        self.bits
    }

    /// Whether all bits of `flag` are set.
    pub fn contains(&self, flag: u32) -> (r: bool)
        ensures
            r == has(self.view_bits(), flag),
    {
        self.bits & flag == flag
    }
}

/// Local mode flags ([`Termios::lflag`]).
#[derive(Clone, Copy)]
pub struct LFlags {
    bits: u32,
}

impl LFlags {
    /// Canonical mode: line buffering and editing.
    pub const ICANON: u32 = 1;
    /// Echo input characters.
    pub const ECHO: u32 = 2;
    /// Erase characters visibly (`BS SP BS`) when the erase character is received.
    pub const ECHOE: u32 = 4;

    /// The raw flag bits.
    pub closed spec fn view_bits(&self) -> u32 {
        self.bits
    }

    /// Builds flags from raw bits, dropping unknown bits.
    pub fn from_bits_truncate(bits: u32) -> (r: Self)
        ensures
            r.view_bits() == bits & 7,
    {
        LFlags { bits: bits & 7 }
    }

    /// Returns the raw flag bits.
    pub fn bits(&self) -> (r: u32)
        ensures
            r == self.view_bits(),
    {
        self.bits
    }

    /// Whether all bits of `flag` are set.
    pub fn contains(&self, flag: u32) -> (r: bool)
        ensures
            r == has(self.view_bits(), flag),
    {
        self.bits & flag == flag
    }
}

/// Terminal processing attributes for a [`Tty`]: a subset of POSIX termios.
#[derive(Clone, Copy)]
pub struct Termios {
    /// Input flags.
    pub iflag: IFlags,
    /// Output flags.
    pub oflag: OFlags,
    /// Local mode flags.
    pub lflag: LFlags,
    /// Erase character; deletes one byte from the edit buffer.
    pub verase: u8,
    /// Kill character; clears the entire edit buffer.
    pub vkill: u8,
    /// EOF character.
    pub veof: u8,
}

impl Termios {
    /// Input flag `f` is set.
    pub open spec fn i(&self, f: u32) -> bool {
        has(self.iflag.view_bits(), f)
    }

    /// Output flag `f` is set.
    pub open spec fn o(&self, f: u32) -> bool {
        has(self.oflag.view_bits(), f)
    }

    /// Local flag `f` is set.
    pub open spec fn l(&self, f: u32) -> bool {
        has(self.lflag.view_bits(), f)
    }
}

/// Outcome of feeding one byte to the line discipline.
#[derive(Debug, Clone, Copy, PartialEq, Eq, Structural)]
pub enum Feed {
    /// Byte was buffered or consumed by editing; readers stay blocked.
    Pending,
    /// New data is available in the ready queue, or EOF is latched; wake readers.
    Readable,
}

/// The byte that input processing turns `byte` into, or `None` if it is discarded.
pub open spec fn rx_byte(byte: u8, t: Termios) -> Option<u8> {
    if byte == 13 && t.i(IFlags::IGNCR) {
        None
    } else if byte == 13 && t.i(IFlags::ICRNL) {
        Some(10u8)
    } else {
        Some(byte)
    }
}

/// The ready queue after appending `b`, unless it is full.
pub open spec fn push_capped(ready: Seq<u8>, b: u8) -> Seq<u8> {
    if ready.len() < READY_CAP {
        ready.push(b)
    } else {
        ready
    }
}

/// What is echoed when `k` bytes are erased.
pub open spec fn erase_echo(k: nat, echoe: bool) -> Seq<u8>
    decreases k,
{
    if k == 0 || !echoe {
        Seq::empty()
    } else {
        erase_echo((k - 1) as nat, echoe) + seq![BACKSPACE, 32u8, BACKSPACE]
    }
}

/// Number of bytes actually removed when erasing `n` bytes from a line of length `len`.
pub open spec fn erased_count(len: nat, n: nat) -> nat {
    if n <= len { n } else { len }
}

/// The ready queue after appending `bytes` one at a time, each dropped while the queue is
/// full: the longest prefix of `ready + bytes` that stays within the cap (or `ready` itself,
/// if it is already at the cap).
pub open spec fn extend_capped(ready: Seq<u8>, bytes: Seq<u8>) -> Seq<u8> {
    if ready.len() >= READY_CAP {
        ready
    } else if ready.len() + bytes.len() <= READY_CAP {
        ready + bytes
    } else {
        (ready + bytes).take(READY_CAP as int)
    }
}

/// Appending to a ready queue within the cap keeps it within the cap, and what it holds is
/// the queue followed by the longest prefix of `bytes` that fits.
pub proof fn lemma_ready_stays_capped(ready: Seq<u8>, bytes: Seq<u8>)
    requires
        ready.len() <= READY_CAP,
    ensures
        extend_capped(ready, bytes).len() <= READY_CAP,
        extend_capped(ready, bytes) == ready + bytes.take(
            if ready.len() + bytes.len() <= READY_CAP { bytes.len() as int } else { READY_CAP - ready.len() },
        ),
{
    if ready.len() + bytes.len() <= READY_CAP {
        assert(bytes.take(bytes.len() as int) =~= bytes);
    } else if ready.len() >= READY_CAP {
        assert(bytes.take(0) =~= Seq::<u8>::empty());
        assert(ready + Seq::<u8>::empty() =~= ready);
    } else {
        assert((ready + bytes).take(READY_CAP as int) =~= ready + bytes.take(READY_CAP - ready.len()));
    }
}

/// Appending one more byte to a capped extension is the capped push of that byte.
proof fn lemma_extend_capped_push(ready: Seq<u8>, bytes: Seq<u8>, b: u8)
    ensures
        extend_capped(ready, bytes.push(b)) == push_capped(extend_capped(ready, bytes), b),
{
    if ready.len() >= READY_CAP {
    } else if ready.len() + bytes.len() + 1 <= READY_CAP {
        assert(ready + bytes.push(b) =~= (ready + bytes).push(b));
    } else if ready.len() + bytes.len() == READY_CAP {
        assert((ready + bytes.push(b)).take(READY_CAP as int) =~= ready + bytes);
    } else {
        assert((ready + bytes.push(b)).take(READY_CAP as int) =~= (ready + bytes).take(READY_CAP as int));
    }
}

/// What receiving `byte` under settings `t` does to the input state (`line`, `ready`,
/// `eof`): the new line, ready queue and EOF latch, the bytes to echo, and whether readers
/// are woken.
pub open spec fn rx_step(line: Seq<u8>, ready: Seq<u8>, eof: bool, byte: u8, t: Termios) -> (Seq<u8>, Seq<u8>, bool, Seq<u8>, bool) {
    match rx_byte(byte, t) {
        None => (line, ready, eof, Seq::empty(), false),
        Some(b) => if !t.l(LFlags::ICANON) {
            // Raw mode: every byte is readable at once.
            (line, push_capped(ready, b), eof, if t.l(LFlags::ECHO) { seq![b] } else { Seq::empty() }, true)
        } else if b == t.verase || b == t.vkill {
            // Erase one byte, or the whole line.
            let n: nat = if b == t.verase { 1 } else { line.len() };
            let k = erased_count(line.len(), n);
            (line.take(line.len() - k), ready, eof, erase_echo(k, t.l(LFlags::ECHOE)), false)
        } else if b == t.veof {
            // End of file: latch EOF on an empty line, else commit without newline.
            if line.len() == 0 {
                (Seq::empty(), ready, true, Seq::empty(), true)
            } else {
                (Seq::empty(), extend_capped(ready, line), eof, Seq::empty(), true)
            }
        } else if b == 10 {
            // Newline: commit the line followed by the newline.
            (Seq::empty(), extend_capped(ready, line.push(10)), eof, if t.l(LFlags::ECHO) {
                seq![13u8, 10u8]
            } else {
                Seq::empty()
            }, true)
        } else {
            // Ordinary byte: appended to the line while there is room.
            let fits = line.len() < LINE_MAX;
            (if fits { line.push(b) } else { line }, ready, eof, if fits && t.l(LFlags::ECHO) {
                seq![b]
            } else {
                Seq::empty()
            }, false)
        },
    }
}

/// Fixed-capacity canonical edit buffer (no allocation on push/pop).
struct LineBuf {
    buf: [u8; LINE_MAX],
    len: usize,
}

impl LineBuf {
    /// The buffered bytes.
    closed spec fn bytes(&self) -> Seq<u8> {
        self.buf@.take(self.len as int)
    }

    /// The length never exceeds the capacity.
    closed spec fn wf(&self) -> bool {
        self.len <= LINE_MAX
    }

    fn new() -> (r: Self)
        ensures
            r.wf(),
            r.bytes() == Seq::<u8>::empty(),
    {
        LineBuf { buf: [0u8; 256], len: 0 }
    }

    /// Appends `byte` if there is room; returns whether it was appended.
    fn push(&mut self, byte: u8) -> (r: bool)
        requires
            old(self).wf(),
        ensures
            final(self).wf(),
            r == (old(self).bytes().len() < LINE_MAX),
            r ==> final(self).bytes() == old(self).bytes().push(byte),
            !r ==> final(self).bytes() == old(self).bytes(),
    {
        if self.len >= LINE_MAX {
            return false;
        }
        self.buf[self.len] = byte;
        self.len += 1;
        proof {
            assert(self.bytes() =~= old(self).bytes().push(byte));
        }
        true
    }

    /// Removes and returns the last byte, if any.
    fn pop(&mut self) -> (r: Option<u8>)
        requires
            old(self).wf(),
        ensures
            final(self).wf(),
            old(self).bytes().len() == 0 ==> r is None && final(self).bytes() == old(self).bytes(),
            old(self).bytes().len() > 0 ==> r == Some(old(self).bytes().last())
                && final(self).bytes() == old(self).bytes().drop_last(),
    {
        if self.len == 0 {
            return None;
        }
        self.len -= 1;
        proof {
            assert(self.bytes() =~= old(self).bytes().drop_last());
        }
        Some(self.buf[self.len])
    }

    /// The buffered bytes, as a slice.
    fn chunk(&self) -> (r: &[u8])
        requires
            self.wf(),
        ensures
            r@ == self.bytes(),
    {
        vstd::slice::slice_subrange(self.buf.as_slice(), 0, self.len)
    }

    /// The number of buffered bytes.
    fn len(&self) -> (r: usize)
        requires
            self.wf(),
        ensures
            r == self.bytes().len(),
    {
        self.len
    }

    /// Empties the buffer.
    fn clear(&mut self)
        ensures
            final(self).wf(),
            final(self).bytes() == Seq::<u8>::empty(),
    {
        self.buf = [0u8; 256];
        self.len = 0;
    }
}

/// Input state shared between the receive path and readers.
pub struct TtyInput {
    /// Line currently being edited; only used in canonical mode.
    line: LineBuf,
    /// Bytes ready to be delivered to readers, oldest first.
    ready: VecDeque<u8>,
    /// An empty-line EOF was seen; the next read returns end-of-file.
    eof: bool,
}

impl TtyInput {
    /// The edit buffer.
    pub closed spec fn line(&self) -> Seq<u8> {
        self.line.bytes()
    }

    /// The bytes ready for readers.
    pub closed spec fn ready(&self) -> Seq<u8> {
        self.ready@
    }

    /// The EOF latch.
    pub closed spec fn eof(&self) -> bool {
        self.eof
    }

    /// The edit buffer never exceeds `LINE_MAX` bytes.
    pub closed spec fn wf(&self) -> bool {
        self.line.wf()
    }

    /// An empty input state.
    pub fn new() -> (r: Self)
        ensures
            r.wf(),
            r.line() == Seq::<u8>::empty(),
            r.ready() == Seq::<u8>::empty(),
            !r.eof(),
    {
        TtyInput { line: LineBuf::new(), ready: VecDeque::with_capacity(READY_CAP), eof: false }
    }

    fn push_ready(&mut self, byte: u8)
        ensures
            final(self).ready() == push_capped(old(self).ready(), byte),
            final(self).line == old(self).line,
            final(self).eof() == old(self).eof(),
    {
        if self.ready.len() < READY_CAP {
            self.ready.push_back(byte);
        }
    }

    fn erase(&mut self, n: usize, t: &Termios, echo: &mut Vec<u8>)
        requires
            old(self).wf(),
        ensures
            final(self).wf(),
            final(self).line() == old(self).line().take(
                old(self).line().len() - erased_count(old(self).line().len(), n as nat),
            ),
            final(self).ready() == old(self).ready(),
            final(self).eof() == old(self).eof(),
            final(echo)@ == old(echo)@ + erase_echo(
                erased_count(old(self).line().len(), n as nat),
                t.l(LFlags::ECHOE),
            ),
    {
        let ghost l0 = self.line();
        let ghost e0 = echo@;
        let mut i: usize = 0;
        while i < n
            invariant_except_break
                i <= n,
                i <= l0.len(),
                self.wf(),
                self.line() == l0.take(l0.len() - i),
                echo@ == e0 + erase_echo(i as nat, t.l(LFlags::ECHOE)),
                self.ready@ == old(self).ready(),
                self.eof == old(self).eof(),
            ensures
                self.wf(),
                self.line() == l0.take(l0.len() - erased_count(l0.len(), n as nat)),
                echo@ == e0 + erase_echo(erased_count(l0.len(), n as nat), t.l(LFlags::ECHOE)),
                self.ready@ == old(self).ready(),
                self.eof == old(self).eof(),
            decreases n - i,
        {
            // Never erase past the start of the line: that is the prompt.
            if self.line.pop().is_none() {
                break;
            }
            if t.lflag.contains(LFlags::ECHOE) {
                echo.push(BACKSPACE);
                echo.push(32u8);
                echo.push(BACKSPACE);
            }
            i += 1;
            proof {
                assert(self.line() =~= l0.take(l0.len() - i));
                assert(echo@ =~= e0 + erase_echo(i as nat, t.l(LFlags::ECHOE)));
            }
        }
    }

    fn commit_line(&mut self, nl: Option<u8>) -> (r: Feed)
        requires
            old(self).wf(),
        ensures
            final(self).wf(),
            r == Feed::Readable,
            final(self).line() == Seq::<u8>::empty(),
            final(self).eof() == old(self).eof(),
            final(self).ready() == match nl {
                Some(c) => extend_capped(old(self).ready(), old(self).line().push(c)),
                None => extend_capped(old(self).ready(), old(self).line()),
            },
    {
        let ghost r0 = self.ready@;
        let chunk = self.line.chunk();
        let mut i: usize = 0;
        proof {
            assert(chunk@.take(0) =~= Seq::<u8>::empty());
            assert(r0 + Seq::<u8>::empty() =~= r0);
        }
        while i < chunk.len()
            invariant
                i <= chunk@.len(),
                chunk@ == old(self).line(),
                self.line == old(self).line,
                self.ready@ == extend_capped(r0, chunk@.take(i as int)),
                self.eof == old(self).eof(),
            decreases chunk@.len() - i,
        {
            proof {
                lemma_extend_capped_push(r0, chunk@.take(i as int), chunk@[i as int]);
                assert(chunk@.take(i as int).push(chunk@[i as int]) =~= chunk@.take(i + 1));
            }
            if self.ready.len() < READY_CAP {
                self.ready.push_back(chunk[i]);
            }
            i += 1;
        }
        proof {
            assert(chunk@.take(chunk@.len() as int) =~= chunk@);
        }
        self.line.clear();
        if let Some(nl) = nl {
            proof {
                lemma_extend_capped_push(r0, chunk@, nl);
            }
            self.push_ready(nl);
        }
        Feed::Readable
    }

    fn commit_eof(&mut self) -> (r: Feed)
        requires
            old(self).wf(),
        ensures
            final(self).wf(),
            r == Feed::Readable,
            final(self).line() == Seq::<u8>::empty(),
            old(self).line().len() == 0 ==> final(self).eof() && final(self).ready() == old(self).ready(),
            old(self).line().len() != 0 ==> final(self).eof() == old(self).eof() && final(self).ready() == extend_capped(old(self).ready(), old(self).line()),
    {
        if self.line.len() == 0 {
            self.eof = true;
            Feed::Readable
        } else {
            self.commit_line(None)
        }
    }

    /// Feeds a received byte into the line discipline, appending what must be echoed to
    /// `echo`.
    ///
    /// Returns `Feed::Readable` when readers should be woken.
    pub fn receive(&mut self, byte: u8, t: &Termios, echo: &mut Vec<u8>) -> (r: Feed)
        requires
            old(self).wf(),
        ensures
            final(self).wf(),
            ({
                let s = rx_step(old(self).line(), old(self).ready(), old(self).eof(), byte, *t);
                &&& final(self).line() == s.0
                &&& final(self).ready() == s.1
                &&& final(self).eof() == s.2
                &&& final(echo)@ == old(echo)@ + s.3
                &&& (r == Feed::Readable) == s.4
            }),
    {
        let byte = if byte == 13u8 && t.iflag.contains(IFlags::IGNCR) {
            return Feed::Pending;
        } else if byte == 13u8 && t.iflag.contains(IFlags::ICRNL) {
            10u8
        } else {
            byte
        };
        if !t.lflag.contains(LFlags::ICANON) {
            self.push_ready(byte);
            if t.lflag.contains(LFlags::ECHO) {
                echo.push(byte);
            }
            return Feed::Readable;
        }
        if byte == t.verase {
            self.erase(1, t, echo);
            Feed::Pending
        } else if byte == t.vkill {
            let n = self.line.len();
            self.erase(n, t, echo);
            Feed::Pending
        } else if byte == t.veof {
            self.commit_eof()
        } else if byte == 10u8 {
            if t.lflag.contains(LFlags::ECHO) {
                echo.push(13u8);
                echo.push(10u8);
            }
            self.commit_line(Some(10u8))
        } else {
            if self.line.push(byte) && t.lflag.contains(LFlags::ECHO) {
                echo.push(byte);
            }
            Feed::Pending
        }
    }
}

} // verus!

verus! {

/// Number of ready bytes a read of at most `max` bytes delivers: up to and including the
/// first newline in canonical mode, otherwise as many as fit.
pub open spec fn read_count(s: Seq<u8>, max: nat, canon: bool) -> nat
    decreases s.len(),
{
    if max == 0 || s.len() == 0 {
        0
    } else if canon && s[0] == 10 {
        1
    } else {
        1 + read_count(s.drop_first(), (max - 1) as nat, canon)
    }
}

/// What a read of at most `max` bytes does to the input state (`ready`, `eof`): the bytes
/// delivered (`None` when the reader must block), the new ready queue and EOF latch.
///
/// With nothing ready and no EOF latched the reader blocks; with nothing ready and EOF
/// latched it gets an empty read and the latch is cleared; otherwise it gets the oldest
/// ready bytes, stopping after a newline in canonical mode.
pub open spec fn read_step(ready: Seq<u8>, eof: bool, max: nat, canon: bool) -> (Option<Seq<u8>>, Seq<u8>, bool) {
    if ready.len() == 0 && !eof {
        (None, ready, false)
    } else if ready.len() == 0 {
        (Some(Seq::empty()), ready, false)
    } else {
        let n = read_count(ready, max, canon);
        (Some(ready.take(n as int)), ready.skip(n as int), eof)
    }
}

/// `s` with every newline preceded by a carriage return.
pub open spec fn onlcr(s: Seq<u8>) -> Seq<u8>
    decreases s.len(),
{
    if s.len() == 0 {
        Seq::empty()
    } else if s.last() == 10 {
        onlcr(s.drop_last()) + seq![13u8, 10u8]
    } else {
        onlcr(s.drop_last()).push(s.last())
    }
}

/// Line discipline and console state: termios settings plus the input queues.
///
/// The output device is not part of this state: the bytes to send to it are returned by
/// [`Tty::receive_byte`] (echo) and [`Tty::write`] (post-processed output).
pub struct Tty {
    input: TtyInput,
    termios: Termios,
}

impl Tty {
    /// The input state.
    pub closed spec fn input(&self) -> &TtyInput {
        &self.input
    }

    /// The terminal settings.
    pub closed spec fn settings(&self) -> Termios {
        self.termios
    }

    /// The input state is consistent.
    pub closed spec fn wf(&self) -> bool {
        self.input.wf()
    }

    /// Creates a TTY with interactive defaults.
    ///
    /// Default termios: `ICRNL` on input; `OPOST | ONLCR` on output; canonical mode with
    /// `ECHO | ECHOE`; erase = `DEL` (`0x7f`), kill = `^U`, EOF = `^D`.
    pub fn new() -> (r: Self)
        ensures
            r.wf(),
            r.input().line() == Seq::<u8>::empty(),
            r.input().ready() == Seq::<u8>::empty(),
            !r.input().eof(),
            r.settings().iflag.view_bits() == IFlags::ICRNL,
            r.settings().oflag.view_bits() == OFlags::OPOST | OFlags::ONLCR,
            r.settings().lflag.view_bits() == LFlags::ICANON | LFlags::ECHO | LFlags::ECHOE,
            r.settings().verase == 0x7f,
            r.settings().vkill == 0x15,
            r.settings().veof == 0x04,
    {
        Tty {
            input: TtyInput::new(),
            termios: Termios {
                iflag: IFlags { bits: IFlags::ICRNL },
                oflag: OFlags { bits: OFlags::OPOST | OFlags::ONLCR },
                lflag: LFlags { bits: LFlags::ICANON | LFlags::ECHO | LFlags::ECHOE },
                verase: 0x7f,
                vkill: 0x15,
                veof: 0x04,
            },
        }
    }

    /// Returns the current terminal settings.
    pub fn termios(&self) -> (r: Termios)
        ensures
            r == self.settings(),
    {
        self.termios
    }

    /// Feeds a received byte into the line discipline.
    ///
    /// Returns the bytes to echo to the device and whether blocked readers must be woken.
    pub fn receive_byte(&mut self, byte: u8) -> (r: (Vec<u8>, bool))
        requires
            old(self).wf(),
        ensures
            final(self).wf(),
            final(self).settings() == old(self).settings(),
            ({
                let s = rx_step(old(self).input().line(), old(self).input().ready(), old(self).input().eof(), byte, old(self).settings());
                &&& final(self).input().line() == s.0
                &&& final(self).input().ready() == s.1
                &&& final(self).input().eof() == s.2
                &&& r.0@ == s.3
                &&& r.1 == s.4
            }),
    {
        let t = self.termios;
        let mut echo: Vec<u8> = Vec::new();
        let feed = self.input.receive(byte, &t, &mut echo);
        proof {
            assert(echo@ =~= rx_step(old(self).input().line(), old(self).input().ready(), old(self).input().eof(), byte, t).3);
        }
        (echo, feed == Feed::Readable)
    }

    /// Takes up to `max` ready bytes for a reader.
    ///
    /// Returns `None` when a reader must block: nothing is ready and no EOF is latched.
    /// When nothing is ready but EOF is latched, returns an empty read (end-of-file) and
    /// clears the latch. Otherwise returns the oldest ready bytes, stopping after a newline
    /// in canonical mode.
    pub fn read(&mut self, max: usize) -> (r: Option<Vec<u8>>)
        requires
            old(self).wf(),
        ensures
            final(self).wf(),
            final(self).settings() == old(self).settings(),
            final(self).input().line() == old(self).input().line(),
            ({
                let s = read_step(old(self).input().ready(), old(self).input().eof(), max as nat, old(self).settings().l(LFlags::ICANON));
                &&& match r {
                    Some(v) => s.0 == Some(v@),
                    None => s.0 is None,
                }
                &&& final(self).input().ready() == s.1
                &&& final(self).input().eof() == s.2
            }),
    {
        let canon = self.termios.lflag.contains(LFlags::ICANON);
        if self.input.ready.len() == 0 {
            if !self.input.eof {
                return None;
            }
            self.input.eof = false;  // reset EOF for the next read
            return Some(Vec::new());
        }
        let ghost r0 = self.input.ready@;
        proof {
            assert(r0.skip(0) =~= r0);
        }
        let mut out: Vec<u8> = Vec::new();
        let mut n: usize = 0;
        while n < max
            invariant_except_break
                n <= max,
                n <= r0.len(),
                out@ == r0.take(n as int),
                self.input.ready@ == r0.skip(n as int),
                read_count(r0, max as nat, canon) == n + read_count(r0.skip(n as int), (max - n) as nat, canon),
                self.input.line == old(self).input().line,
                self.input.eof == old(self).input().eof(),
                self.termios == old(self).settings(),
                canon == old(self).settings().l(LFlags::ICANON),
            ensures
                out@ == r0.take(read_count(r0, max as nat, canon) as int),
                self.input.ready@ == r0.skip(read_count(r0, max as nat, canon) as int),
                self.input.line == old(self).input().line,
                self.input.eof == old(self).input().eof(),
                self.termios == old(self).settings(),
            decreases max - n,
        {
            let ghost rest = r0.skip(n as int);
            let b = match self.input.ready.pop_front() {
                Some(b) => b,
                None => {
                    proof {
                        assert(rest.len() == 0);
                        assert(r0.take(n as int) =~= r0.take(read_count(r0, max as nat, canon) as int));
                    }
                    break;
                },
            };
            out.push(b);
            n += 1;
            proof {
                assert(rest.drop_first() =~= r0.skip(n as int));
                assert(out@ =~= r0.take(n as int));
                assert(self.input.ready@ =~= r0.skip(n as int));
            }
            if canon && b == 10u8 {
                break;
            }
        }
        Some(out)
    }

    /// Post-processes output bytes, returning what is sent to the device: with `OPOST` and
    /// `ONLCR` each newline is preceded by a carriage return.
    pub fn write(&self, buf: &[u8]) -> (r: Vec<u8>)
        ensures
            r@ == if self.settings().o(OFlags::OPOST) && self.settings().o(OFlags::ONLCR) {
                onlcr(buf@)
            } else {
                buf@
            },
    {
        let nlcr = self.termios.oflag.contains(OFlags::OPOST) && self.termios.oflag.contains(
            OFlags::ONLCR,
        );
        let mut out: Vec<u8> = Vec::new();
        let mut i: usize = 0;
        while i < buf.len()
            invariant
                i <= buf.len(),
                out@ == if nlcr {
                    onlcr(buf@.take(i as int))
                } else {
                    buf@.take(i as int)
                },
                nlcr == (self.settings().o(OFlags::OPOST) && self.settings().o(OFlags::ONLCR)),
            decreases buf.len() - i,
        {
            let b = buf[i];
            if nlcr && b == 10u8 {
                out.push(13u8);
            }
            out.push(b);
            i += 1;
            proof {
                assert(buf@.take(i as int).drop_last() =~= buf@.take(i - 1));
                assert(out@ =~= if nlcr {
                    onlcr(buf@.take(i as int))
                } else {
                    buf@.take(i as int)
                });
            }
        }
        proof {
            assert(buf@.take(buf.len() as int) =~= buf@);
        }
        out
    }
}

/// In canonical mode, the EOF character typed on an empty line with no input waiting makes
/// the next read an end-of-file (an empty read) and clears the latch, so the read after it
/// blocks.
pub proof fn lemma_eof_on_empty_line(ready: Seq<u8>, eof: bool, t: Termios, max1: nat, max2: nat)
    requires
        t.l(LFlags::ICANON),
        rx_byte(t.veof, t) == Some(t.veof),
        t.veof != t.verase,
        t.veof != t.vkill,
        ready.len() == 0,
    ensures
        ({
            let s = rx_step(Seq::empty(), ready, eof, t.veof, t);
            let r1 = read_step(s.1, s.2, max1, true);
            let r2 = read_step(r1.1, r1.2, max2, true);
            &&& s.4
            &&& r1.0 == Some(Seq::<u8>::empty())
            &&& r2.0 is None
        }),
{
}

/// In canonical mode, erasing right after typing an ordinary byte into a line with room
/// leaves the edit buffer, the ready queue and the EOF latch as they were.
pub proof fn lemma_erase_undoes_typing(line: Seq<u8>, ready: Seq<u8>, eof: bool, t: Termios, c: u8)
    requires
        t.l(LFlags::ICANON),
        rx_byte(c, t) == Some(c),
        rx_byte(t.verase, t) == Some(t.verase),
        c != t.verase,
        c != t.vkill,
        c != t.veof,
        c != 10,
        line.len() < LINE_MAX,
    ensures
        ({
            let s1 = rx_step(line, ready, eof, c, t);
            let s2 = rx_step(s1.0, s1.1, s1.2, t.verase, t);
            &&& s2.0 == line
            &&& s2.1 == ready
            &&& s2.2 == eof
        }),
{
    let s1 = rx_step(line, ready, eof, c, t);
    assert(s1.0 == line.push(c));
    assert(line.push(c).take(line.len() as int) =~= line);
}

/// In canonical mode, a line typed and ended with a newline is read back whole, newline
/// included, by a read large enough for it, when nothing else was waiting.
pub proof fn lemma_line_read_back(line: Seq<u8>, t: Termios, max: nat)
    requires
        t.l(LFlags::ICANON),
        rx_byte(10, t) == Some(10u8),
        t.verase != 10,
        t.vkill != 10,
        t.veof != 10,
        forall|k: int| 0 <= k < line.len() ==> line[k] != 10,
        line.len() < READY_CAP,
        max > line.len(),
    ensures
        ({
            let s = rx_step(line, Seq::empty(), false, 10, t);
            let r = read_step(s.1, s.2, max, true);
            r.0 == Some(line.push(10))
        }),
{
    let s = rx_step(line, Seq::empty(), false, 10, t);
    assert(Seq::<u8>::empty() + line =~= line);
    assert(s.1 == line.push(10));
    lemma_read_count_line(line, max);
    assert(line.push(10).take(line.len() + 1 as int) =~= line.push(10));
}

/// In canonical mode, the EOF character typed after a partial line only hands the line over:
/// with nothing else waiting and no end-of-file latched, a read large enough returns exactly
/// the line (without a newline), and the read after it blocks rather than reporting
/// end-of-file.
pub proof fn lemma_eof_flushes_partial_line(line: Seq<u8>, t: Termios, max1: nat, max2: nat)
    requires
        t.l(LFlags::ICANON),
        rx_byte(t.veof, t) == Some(t.veof),
        t.veof != t.verase,
        t.veof != t.vkill,
        0 < line.len() <= READY_CAP,
        forall|k: int| 0 <= k < line.len() ==> line[k] != 10,
        max1 >= line.len(),
    ensures
        ({
            let s = rx_step(line, Seq::empty(), false, t.veof, t);
            let r1 = read_step(s.1, s.2, max1, true);
            let r2 = read_step(r1.1, r1.2, max2, true);
            &&& s.4
            &&& r1.0 == Some(line)
            &&& r2.0 is None
        }),
{
    let s = rx_step(line, Seq::empty(), false, t.veof, t);
    assert(Seq::<u8>::empty() + line =~= line);
    assert(s.1 == line);
    lemma_read_count_plain(line, max1);
    assert(line.take(line.len() as int) =~= line);
    assert(line.skip(line.len() as int) =~= Seq::<u8>::empty());
}

/// In canonical mode, the EOF character typed after a partial line leaves the end-of-file
/// latch as it was, empties the edit buffer and makes the line readable after what was
/// already waiting (as far as the ready queue has room), whatever was waiting before.
pub proof fn lemma_eof_on_partial_line_keeps_latch(line: Seq<u8>, ready: Seq<u8>, eof: bool, t: Termios)
    requires
        t.l(LFlags::ICANON),
        rx_byte(t.veof, t) == Some(t.veof),
        t.veof != t.verase,
        t.veof != t.vkill,
        line.len() > 0,
        ready.len() <= READY_CAP,
    ensures
        ({
            let s = rx_step(line, ready, eof, t.veof, t);
            &&& s.0.len() == 0
            &&& s.2 == eof
            &&& s.1.len() <= READY_CAP
            &&& s.1 == ready + line.take(s.1.len() - ready.len())
            &&& ready.len() + line.len() <= READY_CAP ==> s.1 == ready + line
            &&& s.4
        }),
{
    lemma_ready_stays_capped(ready, line);
    let s = rx_step(line, ready, eof, t.veof, t);
    if ready.len() + line.len() <= READY_CAP {
        assert(line.take(line.len() as int) =~= line);
    }
}

/// A read of at least `s.len()` bytes in canonical mode takes all of a newline-free `s`.
proof fn lemma_read_count_plain(s: Seq<u8>, max: nat)
    requires
        forall|k: int| 0 <= k < s.len() ==> s[k] != 10,
        max >= s.len(),
    ensures
        read_count(s, max, true) == s.len(),
    decreases s.len(),
{
    if s.len() > 0 {
        assert(s[0] != 10);
        lemma_read_count_plain(s.drop_first(), (max - 1) as nat);
    }
}

/// A read of more than `line.len()` bytes in canonical mode takes a newline-free `line`
/// and the newline after it.
proof fn lemma_read_count_line(line: Seq<u8>, max: nat)
    requires
        forall|k: int| 0 <= k < line.len() ==> line[k] != 10,
        max > line.len(),
    ensures
        read_count(line.push(10), max, true) == line.len() + 1,
    decreases line.len(),
{
    let s = line.push(10);
    if line.len() == 0 {
        assert(s[0] == 10);
    } else {
        assert(s[0] == line[0]);
        assert(s.drop_first() =~= line.drop_first().push(10));
        lemma_read_count_line(line.drop_first(), (max - 1) as nat);
    }
}

} // verus!
