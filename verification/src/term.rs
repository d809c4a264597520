//! The console terminal: a byte ring buffer in front of the console UART,
//! with decimal and hexadecimal number output.
//!
//! Bytes are staged in a bounded ring buffer and drained to the UART when the
//! buffer runs short of room or a flush is asked for. The governing notion is
//! the terminal's *stream*: the bytes the line has already carried followed
//! by the bytes still waiting in the buffer. Every output operation extends
//! the stream by exactly its payload, and a flush moves bytes from the buffer
//! to the line without losing or reordering any.
//!
//! The ring buffer is an outside data structure; it is held behind a small
//! trusted boundary that names its contents (`ring_contents`) and wraps each
//! method the logic calls. Number formatting calls an outside routine behind
//! wrappers whose contracts state the exact digit strings.

use ringbuf::traits::{Consumer, Observer, Producer};
use vstd::math::min;
use vstd::prelude::*;

use crate::setup::{rx_empty, UARTLine, CR_ENABLED, LCR_H_8N_FIFO, LCR_H_STP2, UART};

verus! {

/// Capacity of the staging ring buffer.
pub const BUFFER_SIZE: usize = 2048;

/// How many buffered bytes one flush hands to the line.
pub const BUFFER_FLUSH_SIZE: usize = 256;

/// Terminal width, in character cells.
pub const WINDOW_WIDTH: usize = 140;

/// Terminal height, in character cells.
pub const WINDOW_HEIGHT: usize = 90;

/// The ASCII escape byte.
pub const ESCAPE: u8 = 0x1b;

/// A bounded ring buffer of bytes, backed by `ringbuf::StaticRb`. The
/// structure is outside code, so it is held whole behind this trusted
/// boundary; `ring_contents` names what it holds, oldest byte first.
#[verifier::external_body]
pub struct ByteRing {
    rb: ringbuf::StaticRb<u8, 2048>,
}

/// The bytes a ring holds, oldest first.
pub uninterp spec fn ring_contents(r: ByteRing) -> Seq<u8>;

/// Relies on `ringbuf::StaticRb::default`: an empty ring buffer.
#[verifier::external_body]
fn ring_new() -> (r: ByteRing)
    ensures
        ring_contents(r) == Seq::<u8>::empty(),
{
    ByteRing { rb: ringbuf::StaticRb::default() }
}

/// Relies on `ringbuf`'s `Producer::try_push`: appends the byte at the back
/// unless the ring already holds its capacity of 2048.
#[verifier::external_body]
fn ring_try_push(r: &mut ByteRing, ch: u8) -> (ok: bool)
    ensures
        ok == (ring_contents(*old(r)).len() < 2048),
        ok ==> ring_contents(*final(r)) == ring_contents(*old(r)).push(ch),
        !ok ==> ring_contents(*final(r)) == ring_contents(*old(r)),
{
    r.rb.try_push(ch).is_ok()
}

/// Relies on `ringbuf`'s `Consumer::try_pop`: removes and returns the oldest
/// byte, or `None` exactly when the ring is empty.
#[verifier::external_body]
fn ring_try_pop(r: &mut ByteRing) -> (res: Option<u8>)
    ensures
        match res {
            Some(c) => ring_contents(*old(r)).len() > 0 && c == ring_contents(*old(r))[0]
                && ring_contents(*final(r)) == ring_contents(*old(r)).drop_first(),
            None => ring_contents(*old(r)).len() == 0 && ring_contents(*final(r))
                == ring_contents(*old(r)),
        },
{
    r.rb.try_pop()
}

/// Relies on `ringbuf`'s `Observer::occupied_len`: how many bytes the ring
/// holds, at most its capacity of 2048.
#[verifier::external_body]
fn ring_occupied_len(r: &ByteRing) -> (n: usize)
    ensures
        n == ring_contents(*r).len(),
        n <= 2048,
{
    r.rb.occupied_len()
}

/// Relies on `ringbuf`'s `Observer::vacant_len`: the room left, the capacity
/// of 2048 minus the bytes held.
#[verifier::external_body]
fn ring_vacant_len(r: &ByteRing) -> (n: usize)
    ensures
        n == 2048 - ring_contents(*r).len(),
{
    r.rb.vacant_len()
}

/// Relies on `ringbuf`'s `Observer::is_full`: whether the ring holds its
/// capacity of 2048.
#[verifier::external_body]
fn ring_is_full(r: &ByteRing) -> (b: bool)
    ensures
        b == (ring_contents(*r).len() == 2048),
{
    r.rb.is_full()
}

/// Relies on `ringbuf`'s `Producer::push_slice`: appends as many bytes from
/// the front of the slice as the ring has room for, and returns how many.
#[verifier::external_body]
fn ring_push_slice(r: &mut ByteRing, s: &[u8]) -> (n: usize)
    ensures
        ring_contents(*old(r)).len() <= 2048,
        n == min(2048 - ring_contents(*old(r)).len(), s@.len() as int),
        ring_contents(*final(r)) == ring_contents(*old(r)) + s@.subrange(0, n as int),
{
    r.rb.push_slice(s)
}

/// The ASCII digit for a value below the base, upper case above nine, as the
/// formatting routine's lookup table has it.
pub open spec fn digit_ascii(d: int) -> u8 {
    if d < 10 {
        (0x30 + d) as u8
    } else {
        (0x41 + (d - 10)) as u8
    }
}

/// The base-`b` digits of `n`, most significant first; empty for zero.
pub open spec fn digits(n: int, b: int) -> Seq<u8>
    decreases n,
    via digits_decreases
{
    if n <= 0 || b < 2 {
        Seq::empty()
    } else {
        digits(n / b, b).push(digit_ascii(n % b))
    }
}

#[via_fn]
proof fn digits_decreases(n: int, b: int) {
    if !(n <= 0 || b < 2) {
        assert(n / b < n) by (nonlinear_arith)
            requires
                n >= 1 && b >= 2,
        ;
    }
}

/// The printed form of an unsigned value: its digits, or "0" for zero.
pub open spec fn unsigned_repr(n: int, b: int) -> Seq<u8> {
    if n == 0 {
        seq![0x30u8]
    } else {
        digits(n, b)
    }
}

/// The printed form of a signed value: a minus sign before the magnitude of
/// a negative.
pub open spec fn signed_repr(n: int, b: int) -> Seq<u8> {
    if n >= 0 {
        unsigned_repr(n, b)
    } else {
        seq![0x2du8] + unsigned_repr(-n, b)
    }
}

/// Relies on `numtoa::NumToA::<usize>::numtoa`: writes the digits of `u`,
/// most significant first, upper case, into the tail of the buffer and
/// returns that tail — "0" for zero. The result is a slice of the 20-byte
/// buffer, which base 10 needs in full and base 16 never exceeds.
#[verifier::external_body]
fn numtoa_usize(u: usize, base: usize) -> (r: Vec<u8>)
    requires
        base == 10 || base == 16,
    ensures
        r@ == unsigned_repr(u as int, base as int),
        r@.len() <= 20,
{
    let mut buf = [0u8; 20];
    let s = numtoa::NumToA::numtoa(u, base, &mut buf);
    s.to_vec()
}

/// Relies on `numtoa::NumToA::<i8>::numtoa`: the decimal digits, with a
/// leading minus sign for a negative value.
#[verifier::external_body]
fn numtoa_i8(i: i8) -> (r: Vec<u8>)
    ensures
        r@ == signed_repr(i as int, 10),
        r@.len() <= 20,
{
    let mut buf = [0u8; 20];
    let s = numtoa::NumToA::numtoa(i, 10, &mut buf);
    s.to_vec()
}

/// The base-10 digits of `n`, least significant first; empty for zero.
pub open spec fn lsd_digits(n: int) -> Seq<u8>
    decreases n,
    via lsd_digits_decreases
{
    if n <= 0 {
        Seq::empty()
    } else {
        seq![digit_ascii(n % 10)] + lsd_digits(n / 10)
    }
}

#[via_fn]
proof fn lsd_digits_decreases(n: int) {
    if n > 0 {
        assert(n / 10 < n) by (nonlinear_arith)
            requires
                n >= 1,
        ;
    }
}

/// The printed form of a value, least significant digit first: its digits,
/// or "0" for zero.
pub open spec fn lsd_repr(n: int) -> Seq<u8> {
    if n == 0 {
        seq![0x30u8]
    } else {
        lsd_digits(n)
    }
}

/// Ten to the `k`th power.
pub open spec fn pow10(k: nat) -> int
    decreases k,
{
    if k == 0 {
        1
    } else {
        10 * pow10((k - 1) as nat)
    }
}

proof fn lemma_pow10_pos(k: nat)
    ensures
        pow10(k) >= 1,
    decreases k,
{
    if k > 0 {
        lemma_pow10_pos((k - 1) as nat);
    }
}

/// A value below ten to the `k`th has at most `k` digits.
proof fn lemma_lsd_digits_len(n: int, k: nat)
    requires
        0 <= n < pow10(k),
    ensures
        lsd_digits(n).len() <= k,
    decreases k,
{
    if n > 0 {
        if k == 0 {
            assert(false);
        }
        let p = pow10((k - 1) as nat);
        lemma_pow10_pos((k - 1) as nat);
        assert(n / 10 < p) by (nonlinear_arith)
            requires
                n < 10 * p,
                n >= 1,
                p >= 1,
        ;
        lemma_lsd_digits_len(n / 10, (k - 1) as nat);
    }
}

/// Write the decimal digits of `i` into the front of the buffer, least
/// significant digit first, and say how many were written. The buffer holds
/// ten digits, so the value must not need more.
pub fn u_to_str(i: usize, buf: &mut [u8; 10]) -> (cnt: usize)
    requires
        i < 10_000_000_000,
    ensures
        cnt == lsd_repr(i as int).len(),
        final(buf)@.subrange(0, cnt as int) == lsd_repr(i as int),
        forall|j: int| cnt <= j < 10 ==> final(buf)@[j] == old(buf)@[j],
{
    let mut n = i;
    let mut cnt: usize = 0;
    if n == 0 {
        buf[cnt] = 0x30;
        cnt = 1;
        proof {
            assert(buf@.subrange(0, 1) =~= lsd_repr(0));
        }
    } else {
        proof {
            assert(pow10(10) == 10_000_000_000) by {
                reveal_with_fuel(pow10, 11);
            }
            lemma_lsd_digits_len(i as int, 10);
        }
        while n > 0
            invariant
                cnt <= 10,
                i > 0,
                lsd_digits(i as int) == buf@.subrange(0, cnt as int) + lsd_digits(n as int),
                cnt + lsd_digits(n as int).len() == lsd_digits(i as int).len(),
                lsd_digits(i as int).len() <= 10,
                forall|j: int| cnt <= j < 10 ==> buf@[j] == old(buf)@[j],
            decreases n,
        {
            let ghost n_pre = n as int;
            let ghost sub_pre = buf@.subrange(0, cnt as int);
            proof {
                assert(lsd_digits(n_pre).len() >= 1);
            }
            let d = (n % 10) as u8 + 0x30;
            buf[cnt] = d;
            cnt = cnt + 1;
            n = n / 10;
            proof {
                assert(buf@.subrange(0, cnt as int) =~= sub_pre.push(d));
                assert(d == digit_ascii(n_pre % 10));
                assert(sub_pre + lsd_digits(n_pre) =~= sub_pre.push(digit_ascii(n_pre % 10))
                    + lsd_digits(n_pre / 10));
            }
        }
        proof {
            assert(buf@.subrange(0, cnt as int) + lsd_digits(0) =~= buf@.subrange(0, cnt as int));
        }
    }
    cnt
}

/// Write the decimal digits of a negative value's magnitude into the buffer,
/// least significant first; a non-negative value writes nothing.
pub fn to_str(i: i32, buf: &mut [u8; 10])
    requires
        i > i32::MIN,
    ensures
        i < 0 ==> final(buf)@.subrange(0, lsd_repr(-i as int).len() as int) == lsd_repr(
            -i as int,
        ) && (forall|j: int|
            lsd_repr(-i as int).len() <= j < 10 ==> final(buf)@[j] == old(buf)@[j]),
        i >= 0 ==> final(buf)@ == old(buf)@,
{
    if i < 0 {
        u_to_str((-i) as usize, buf);
    }
}

/// A fresh zeroed digit buffer.
pub fn create_slice() -> (r: [u8; 10])
    ensures
        r@.len() == 10,
        forall|j: int| 0 <= j < 10 ==> r@[j] == 0,
{
    [0, 0, 0, 0, 0, 0, 0, 0, 0, 0]
}

/// A cursor position, with whether the cursor is shown.
#[derive(Clone, Copy, Debug, PartialEq, Eq, Structural)]
pub struct Cursor {
    pub x: usize,
    pub y: usize,
    pub on: bool,
}

impl Cursor {
    pub fn new(x: usize, y: usize) -> (r: Cursor)
        ensures
            r == (Cursor { x, y, on: false }),
    {
        Cursor { x, y, on: false }
    }
}

/// The UART did not change except through its transmit path: same line, same
/// configuration, and the receive flag as it was.
pub open spec fn same_uart_line(a: UART, b: UART) -> bool {
    &&& a.line == b.line
    &&& a.registers.cr == b.registers.cr
    &&& a.registers.icr == b.registers.icr
    &&& a.registers.ibrd == b.registers.ibrd
    &&& a.registers.fbrd == b.registers.fbrd
    &&& a.registers.lcr_h == b.registers.lcr_h
    &&& rx_empty(a.registers.fr) == rx_empty(b.registers.fr)
}

/// The console terminal.
pub struct Term {
    pub uart: UART,
    pub buffer: ByteRing,
    pub width: usize,
    pub height: usize,
    pub cursor: Cursor,
}

impl Term {
    /// The bytes this terminal has accepted, in order: what the line has
    /// carried followed by what still waits in the buffer.
    pub open spec fn stream(self) -> Seq<u8> {
        self.uart.registers.tx_log@ + ring_contents(self.buffer)
    }

    /// The bytes still waiting in the buffer.
    pub open spec fn buffered(self) -> Seq<u8> {
        ring_contents(self.buffer)
    }

    /// Everything about the terminal but its byte traffic is unchanged.
    pub open spec fn same_shape(self, o: Term) -> bool {
        &&& same_uart_line(self.uart, o.uart)
        &&& self.width == o.width
        &&& self.height == o.height
        &&& self.cursor == o.cursor
    }

    /// A terminal on the console line, with the line-feed mode command
    /// staged in the buffer.
    pub fn init() -> (r: Term)
        ensures
            r.uart.line == UARTLine::Console,
            r.uart.registers.cr == CR_ENABLED,
            r.uart.registers.ibrd == 26,
            r.uart.registers.fbrd == 2,
            r.uart.registers.lcr_h == LCR_H_8N_FIFO | LCR_H_STP2,
            r.uart.registers.fr == 0,
            r.uart.registers.tx_log@ == Seq::<u8>::empty(),
            r.buffered() == seq![ESCAPE, 0x5bu8, 0x32u8, 0x30u8, 0x68u8],
            r.width == WINDOW_WIDTH,
            r.height == WINDOW_HEIGHT,
            r.cursor == (Cursor { x: 0, y: 0, on: false }),
    {
        let mut term = Term {
            uart: UART::console(),
            buffer: ring_new(),
            width: WINDOW_WIDTH,
            height: WINDOW_HEIGHT,
            cursor: Cursor::new(0, 0),
        };
        term.set_lf();
        proof {
            assert(term.buffered() =~= seq![ESCAPE, 0x5bu8, 0x32u8, 0x30u8, 0x68u8]);
        }
        term
    }

    /// Stage the command that maps a line feed to a new line.
    fn set_lf(&mut self)
        ensures
            final(self).same_shape(*old(self)),
            final(self).stream() == old(self).stream() + seq![
                ESCAPE,
                0x5bu8,
                0x32u8,
                0x30u8,
                0x68u8,
            ],
            final(self).buffered().len() <= BUFFER_SIZE,
            old(self).buffered().len() + 5 < 2047 ==> final(self).uart == old(self).uart && final(self).buffered() == old(self).buffered() + seq![ESCAPE, 0x5bu8, 0x32u8, 0x30u8, 0x68u8],
    {
        let mut cmd: Vec<u8> = Vec::new();
        cmd.push(0x5b);
        cmd.push(0x32);
        cmd.push(0x30);
        cmd.push(0x68);
        proof {
            assert(cmd@ =~= seq![0x5bu8, 0x32u8, 0x30u8, 0x68u8]);
        }
        self.put_command(cmd.as_slice());
        proof {
            assert(old(self).stream() + seq![ESCAPE] + cmd@ =~= old(self).stream() + seq![
                ESCAPE,
                0x5bu8,
                0x32u8,
                0x30u8,
                0x68u8,
            ]);
            assert(old(self).buffered() + seq![ESCAPE] + cmd@ =~= old(self).buffered() + seq![
                ESCAPE,
                0x5bu8,
                0x32u8,
                0x30u8,
                0x68u8,
            ]);
        }
    }

    /// Drain every buffered byte to the line.
    pub fn flush_all(&mut self)
        ensures
            final(self).same_shape(*old(self)),
            final(self).buffered().len() == 0,
            final(self).uart.registers.tx_log@ == old(self).stream(),
            final(self).stream() == old(self).stream(),
    {
        let occ = ring_occupied_len(&self.buffer);
        let mut i: usize = 0;
        while i < occ
            invariant
                i <= occ,
                occ == old(self).buffered().len(),
                self.buffered() == old(self).buffered().skip(i as int),
                self.stream() == old(self).stream(),
                self.same_shape(*old(self)),
            decreases occ - i,
        {
            let c = match ring_try_pop(&mut self.buffer) {
                Some(c) => c,
                None => {
                    proof {
                        assert(false);
                    }
                    0
                },
            };
            let ghost fr_pre = self.uart.registers.fr;
            let ghost buf_pre = self.buffered();
            self.uart.putc(c);
            proof {
                crate::setup::lemma_fr_clear_txff(fr_pre);
                assert(old(self).buffered().skip(i as int).drop_first() =~= old(
                    self,
                ).buffered().skip(i + 1));
                assert(self.stream() =~= old(self).stream());
            }
            i = i + 1;
        }
        proof {
            assert(old(self).buffered().skip(occ as int) =~= Seq::<u8>::empty());
            assert(final(self).uart.registers.tx_log@ =~= old(self).stream());
        }
    }

    /// Hand up to `len` buffered bytes to the line, then keep draining while
    /// no received byte is pending — everything the line can take without
    /// holding up input.
    fn flush(&mut self, len: usize)
        ensures
            final(self).same_shape(*old(self)),
            final(self).stream() == old(self).stream(),
            final(self).buffered() == if rx_empty(old(self).uart.registers.fr) {
                old(self).buffered().skip(min(len as int, old(self).buffered().len() as int))
            } else {
                Seq::<u8>::empty()
            },
    {
        let occ = ring_occupied_len(&self.buffer);
        let n = if len < occ {
            len
        } else {
            occ
        };
        let mut i: usize = 0;
        while i < n
            invariant
                i <= n,
                n == min(len as int, old(self).buffered().len() as int),
                self.buffered() == old(self).buffered().skip(i as int),
                self.stream() == old(self).stream(),
                self.same_shape(*old(self)),
            decreases n - i,
        {
            let c = match ring_try_pop(&mut self.buffer) {
                Some(c) => c,
                None => {
                    proof {
                        assert(false);
                    }
                    0
                },
            };
            let ghost fr_pre = self.uart.registers.fr;
            self.uart.putc(c);
            proof {
                crate::setup::lemma_fr_clear_txff(fr_pre);
                assert(old(self).buffered().skip(i as int).drop_first() =~= old(
                    self,
                ).buffered().skip(i + 1));
                assert(self.stream() =~= old(self).stream());
            }
            i = i + 1;
        }
        let ghost mid = *self;
        while !self.uart.rxwaiting()
            invariant
                self.stream() == old(self).stream(),
                self.same_shape(*old(self)),
                rx_empty(old(self).uart.registers.fr) ==> self.buffered() == mid.buffered(),
            ensures
                self.stream() == old(self).stream(),
                self.same_shape(*old(self)),
                rx_empty(old(self).uart.registers.fr) ==> self.buffered() == mid.buffered(),
                !rx_empty(old(self).uart.registers.fr) ==> self.buffered() == Seq::<u8>::empty(),
            decreases self.buffered().len(),
        {
            match ring_try_pop(&mut self.buffer) {
                Some(c) => {
                    self.uart.putc_nowait(c);
                    proof {
                        assert(self.stream() =~= old(self).stream());
                    }
                },
                None => {
                    proof {
                        assert(self.buffered() =~= Seq::<u8>::empty());
                    }
                    break ;
                },
            }
        }
    }

    /// Stage one byte without checking for room.
    fn put_unchecked(&mut self, ch: u8)
        requires
            old(self).buffered().len() < BUFFER_SIZE,
        ensures
            final(self).uart == old(self).uart,
            final(self).width == old(self).width,
            final(self).height == old(self).height,
            final(self).cursor == old(self).cursor,
            final(self).buffered() == old(self).buffered().push(ch),
            final(self).stream() == old(self).stream().push(ch),
    {
        let ok = ring_try_push(&mut self.buffer, ch);
        if !ok {
            proof {
                assert(false);
            }
        }
        proof {
            assert(final(self).stream() =~= old(self).stream().push(ch));
        }
    }

    /// Stage one byte, draining ahead or behind when the buffer runs out of
    /// room.
    fn put_ch(&mut self, ch: u8)
        ensures
            final(self).same_shape(*old(self)),
            final(self).stream() == old(self).stream().push(ch),
            final(self).buffered().len() < BUFFER_SIZE,
            old(self).buffered().len() < 2046 ==> final(self).uart == old(self).uart && final(self).buffered() == old(self).buffered().push(ch),
    {
        if ring_is_full(&self.buffer) {
            self.flush(BUFFER_FLUSH_SIZE);
            self.put_unchecked(ch);
        } else {
            let vacant = ring_vacant_len(&self.buffer);
            if vacant == 1 {
                self.put_unchecked(ch);
                self.flush(BUFFER_FLUSH_SIZE);
            } else {
                self.put_unchecked(ch);
            }
        }
    }

    /// Stage a slice, oldest byte first, draining as needed to make room.
    pub fn put_slice(&mut self, str: &[u8])
        requires
            str@.len() <= BUFFER_SIZE,
        ensures
            final(self).same_shape(*old(self)),
            final(self).stream() == old(self).stream() + str@,
            final(self).buffered().len() <= BUFFER_SIZE,
            old(self).buffered().len() + str@.len() < 2047 ==> final(self).uart == old(self).uart
                && final(self).buffered() == old(self).buffered() + str@,
    {
        let vacant = ring_vacant_len(&self.buffer);
        if vacant == str.len() {
            let n = ring_push_slice(&mut self.buffer, str);
            proof {
                assert(str@.subrange(0, str@.len() as int) =~= str@);
                assert(self.stream() =~= old(self).stream() + str@);
            }
            self.flush(BUFFER_FLUSH_SIZE);
        } else {
            while ring_vacant_len(&self.buffer) < str.len()
                invariant
                    str@.len() <= BUFFER_SIZE,
                    self.stream() == old(self).stream(),
                    self.same_shape(*old(self)),
                    old(self).buffered().len() + str@.len() < 2047 ==> *self == *old(self),
                decreases self.buffered().len(),
            {
                let ghost pre = *self;
                self.flush(BUFFER_FLUSH_SIZE);
                proof {
                    if rx_empty(pre.uart.registers.fr) {
                        assert(pre.buffered().skip(
                            min(BUFFER_FLUSH_SIZE as int, pre.buffered().len() as int),
                        ).len() < pre.buffered().len());
                    }
                }
            }
            let n = ring_push_slice(&mut self.buffer, str);
            proof {
                assert(str@.subrange(0, str@.len() as int) =~= str@);
                assert(self.stream() =~= old(self).stream() + str@);
            }
        }
    }

    /// Stage the escape byte.
    fn put_escape(&mut self)
        ensures
            final(self).same_shape(*old(self)),
            final(self).stream() == old(self).stream().push(ESCAPE),
            final(self).buffered().len() < BUFFER_SIZE,
            old(self).buffered().len() < 2046 ==> final(self).uart == old(self).uart && final(self).buffered() == old(self).buffered().push(ESCAPE),
    {
        self.put_ch(ESCAPE);
    }

    /// Stage a terminal command: the escape byte, then the command bytes.
    fn put_command(&mut self, command: &[u8])
        requires
            command@.len() <= BUFFER_SIZE,
        ensures
            final(self).same_shape(*old(self)),
            final(self).stream() == old(self).stream() + seq![ESCAPE] + command@,
            final(self).buffered().len() <= BUFFER_SIZE,
            old(self).buffered().len() + 1 + command@.len() < 2047 ==> final(self).uart == old(
                self,
            ).uart && final(self).buffered() == old(self).buffered() + seq![ESCAPE] + command@,
    {
        self.put_escape();
        self.put_slice(command);
        proof {
            assert(final(self).stream() =~= old(self).stream() + seq![ESCAPE] + command@);
            if old(self).buffered().len() + 1 + command@.len() < 2047 {
                assert(final(self).buffered() =~= old(self).buffered() + seq![ESCAPE] + command@);
            }
        }
    }

    /// Stage the hexadecimal form of a value.
    pub fn put_u_hex(&mut self, u: usize)
        ensures
            final(self).same_shape(*old(self)),
            final(self).stream() == old(self).stream() + unsigned_repr(u as int, 16),
            final(self).buffered().len() <= BUFFER_SIZE,
    {
        let digits = numtoa_usize(u, 16);
        self.put_slice(digits.as_slice());
    }

    /// Stage the decimal form of a value.
    pub fn put_u_dec(&mut self, u: usize)
        ensures
            final(self).same_shape(*old(self)),
            final(self).stream() == old(self).stream() + unsigned_repr(u as int, 10),
            final(self).buffered().len() <= BUFFER_SIZE,
    {
        let digits = numtoa_usize(u, 10);
        self.put_slice(digits.as_slice());
    }

    /// Stage the decimal form of a signed result value.
    pub fn put_int(&mut self, i: i8)
        ensures
            final(self).same_shape(*old(self)),
            final(self).stream() == old(self).stream() + signed_repr(i as int, 10),
            final(self).buffered().len() <= BUFFER_SIZE,
    {
        let digits = numtoa_i8(i);
        self.put_slice(digits.as_slice());
    }

    /// Stage the decimal form of a value and drain everything to the line.
    pub fn put_u_dec_flush(&mut self, u: usize)
        ensures
            final(self).same_shape(*old(self)),
            final(self).buffered().len() == 0,
            final(self).uart.registers.tx_log@ == old(self).stream() + unsigned_repr(u as int, 10),
    {
        self.put_u_dec(u);
        self.flush_all();
    }

    /// Stage the decimal form of a signed result and drain everything.
    pub fn put_int_flush(&mut self, i: i8)
        ensures
            final(self).same_shape(*old(self)),
            final(self).buffered().len() == 0,
            final(self).uart.registers.tx_log@ == old(self).stream() + signed_repr(i as int, 10),
    {
        self.put_int(i);
        self.flush_all();
    }

    /// Stage a slice and drain everything to the line.
    pub fn put_slice_flush(&mut self, str: &[u8])
        requires
            str@.len() <= BUFFER_SIZE,
        ensures
            final(self).same_shape(*old(self)),
            final(self).buffered().len() == 0,
            final(self).uart.registers.tx_log@ == old(self).stream() + str@,
    {
        self.put_slice(str);
        self.flush_all();
    }
}

} // verus!
