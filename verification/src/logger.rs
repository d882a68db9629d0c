//! The crash log: a ring of bytes that keeps the most recent log lines
//! and is handed out once, when a crash is reported.
use crate::decimal::{decimal_text, format_u64};
use vstd::prelude::*;
use vstd::slice::slice_to_vec;

verus! {

/// The smallest capacity a crash log may have.
pub const MIN_BUFSIZE: usize = 128;

/// A fixed-capacity ring of bytes.
pub struct SimpleLogger {
    buffer: Vec<u8>,
    /// Where the next byte goes; also where the oldest byte stands.
    ptr: usize,
    closed: bool,
}

/// The last `cap` bytes of `older` followed by `newer`.
pub open spec fn keep_last(older: Seq<u8>, newer: Seq<u8>, cap: int) -> Seq<u8> {
    (older + newer).subrange(older.len() + newer.len() - cap, (older.len() + newer.len()) as int)
}

/// `s` without the zero bytes it begins with.
pub open spec fn trim_zeros(s: Seq<u8>) -> Seq<u8>
    decreases s.len(),
{
    if s.len() > 0 && s[0] == 0 {
        trim_zeros(s.drop_first())
    } else {
        s
    }
}

/// The bytes of a log line: the message and a line feed.
pub open spec fn line_bytes(message: Seq<u8>) -> Seq<u8> {
    message.push(10u8)
}

/// The ASCII bytes of `text`.
pub open spec fn ascii_bytes(text: Seq<char>) -> Seq<u8> {
    Seq::new(text.len(), |i: int| text[i] as u8)
}

/// The text logged in place of a line that is larger than the ring.
pub open spec fn oversize_text() -> Seq<char> {
    "Warning: message larger than buffer! Len:"@
}

/// The line logged in place of a line of `len` bytes that is larger than
/// the ring.
pub open spec fn oversize_line(len: nat) -> Seq<u8> {
    line_bytes(ascii_bytes(oversize_text()) + ascii_bytes(decimal_text(len)))
}

/// What is in fact appended for a line `line`: the line, or the warning
/// where the line is larger than the ring.
pub open spec fn appended(line: Seq<u8>, cap: int) -> Seq<u8> {
    if line.len() > cap {
        oversize_line(line.len())
    } else {
        line
    }
}

/// Ten to the power `k`.
pub open spec fn ten_pow(k: nat) -> nat
    decreases k,
{
    if k == 0 {
        1
    } else {
        10 * ten_pow((k - 1) as nat)
    }
}

/// A number below ten to the power `k` has at most `k` digits.
pub proof fn lemma_decimal_len_bound(n: nat, k: nat)
    requires
        k >= 1,
        n < ten_pow(k),
    ensures
        decimal_text(n).len() <= k,
    decreases k,
{
    if n >= 10 {
        if k == 1 {
            assert(ten_pow(1) == 10 * ten_pow(0));
        } else {
            lemma_decimal_len_bound(n / 10, (k - 1) as nat);
        }
    }
}

impl SimpleLogger {
    /// The number of bytes the ring holds.
    pub closed spec fn capacity(&self) -> nat {
        self.buffer@.len()
    }

    /// The bytes in the ring, oldest first. A ring that has not been
    /// filled yet begins with zero bytes.
    pub closed spec fn content(&self) -> Seq<u8> {
        self.buffer@.subrange(self.ptr as int, self.buffer@.len() as int) + self.buffer@.subrange(
            0,
            self.ptr as int,
        )
    }

    /// Whether the ring has been handed out and takes no more lines.
    pub closed spec fn is_closed(&self) -> bool {
        self.closed
    }

    /// The ring is at least the smallest size and its write position lies
    /// within it.
    pub closed spec fn wf(&self) -> bool {
        self.buffer@.len() >= MIN_BUFSIZE && self.ptr <= self.buffer@.len()
    }

    /// An empty ring of `bufsize` bytes.
    pub fn new(bufsize: usize) -> (r: Self)
        requires
            bufsize >= MIN_BUFSIZE,
        ensures
            r.wf(),
            r.capacity() == bufsize,
            !r.is_closed(),
            r.content() == Seq::new(bufsize as nat, |i: int| 0u8),
    {
        let mut buffer: Vec<u8> = Vec::new();
        let mut i: usize = 0;
        while i < bufsize
            invariant
                0 <= i <= bufsize,
                buffer@ == Seq::new(i as nat, |k: int| 0u8),
            decreases bufsize - i,
        {
            buffer.push(0u8);
            i += 1;
            proof {
                assert(buffer@ =~= Seq::new(i as nat, |k: int| 0u8));
            }
        }
        let r = SimpleLogger { buffer, ptr: 0, closed: false };
        proof {
            assert(r.content() =~= Seq::new(bufsize as nat, |i: int| 0u8));
        }
        r
    }

    /// Appends `bytes`, which fit the ring, overwriting the oldest bytes.
    fn put(&mut self, bytes: &[u8])
        requires
            old(self).wf(),
            bytes@.len() <= old(self).capacity(),
        ensures
            final(self).wf(),
            final(self).capacity() == old(self).capacity(),
            final(self).is_closed() == old(self).is_closed(),
            final(self).content() == keep_last(
                old(self).content(),
                bytes@,
                old(self).capacity() as int,
            ),
    {
        let cap: usize = self.buffer.len();
        let ghost before = self.content();
        let mut i: usize = 0;
        proof {
            assert(keep_last(before, bytes@.take(0), cap as int) =~= before);
        }
        while i < bytes.len()
            invariant
                0 <= i <= bytes.len(),
                bytes@.len() <= cap,
                cap == self.buffer@.len(),
                cap >= MIN_BUFSIZE,
                self.ptr <= cap,
                self.closed == old(self).closed,
                before.len() == cap,
                self.content() == keep_last(before, bytes@.take(i as int), cap as int),
            decreases bytes.len() - i,
        {
            let ghost prev = self.content();
            if self.ptr == cap {
                self.ptr = 0;
            }
            proof {
                assert(self.content() =~= prev);
            }
            let at = self.ptr;
            self.buffer.set(at, bytes[i]);
            self.ptr = at + 1;
            proof {
                let b = bytes@[i as int];
                assert(self.content() =~= prev.drop_first().push(b));
                assert(bytes@.take(i as int + 1) =~= bytes@.take(i as int).push(b));
                assert(keep_last(before, bytes@.take(i as int + 1), cap as int) =~= keep_last(
                    before,
                    bytes@.take(i as int),
                    cap as int,
                ).drop_first().push(b));
            }
            i += 1;
        }
        proof {
            assert(bytes@.take(i as int) =~= bytes@);
        }
    }

    /// Logs one line: `message` and a line feed. A closed ring takes
    /// nothing. A line larger than the ring is replaced by a warning that
    /// names its length.
    pub fn ring_write(&mut self, message: &[u8])
        requires
            old(self).wf(),
            message@.len() < usize::MAX,
        ensures
            final(self).wf(),
            final(self).capacity() == old(self).capacity(),
            final(self).is_closed() == old(self).is_closed(),
            final(self).content() == if old(self).is_closed() {
                old(self).content()
            } else {
                keep_last(
                    old(self).content(),
                    appended(line_bytes(message@), old(self).capacity() as int),
                    old(self).capacity() as int,
                )
            },
    {
        if self.closed {
            return ;
        }
        let mut line: Vec<u8> = slice_to_vec(message);
        line.push(10u8);
        if line.len() > self.buffer.len() {
            let warning = oversize_warning(line.len());
            self.put(warning.as_slice());
            return ;
        }
        self.put(line.as_slice());
    }

    /// Hands out what the ring holds, oldest byte first and without the
    /// zero bytes it begins with, and closes the ring.
    pub fn ring_display_and_close(&mut self) -> (r: Vec<u8>)
        requires
            old(self).wf(),
        ensures
            final(self).wf(),
            final(self).is_closed(),
            final(self).capacity() == old(self).capacity(),
            final(self).content() == old(self).content(),
            r@ == trim_zeros(old(self).content()),
    {
        let cap: usize = self.buffer.len();
        let mut final_buf: Vec<u8> = Vec::new();
        let mut i: usize = self.ptr;
        while i < cap
            invariant
                self.ptr <= i <= cap,
                cap == self.buffer@.len(),
                final_buf@ == self.buffer@.subrange(self.ptr as int, i as int),
            decreases cap - i,
        {
            final_buf.push(self.buffer[i]);
            i += 1;
            proof {
                assert(final_buf@ =~= self.buffer@.subrange(self.ptr as int, i as int));
            }
        }
        let mut j: usize = 0;
        while j < self.ptr
            invariant
                0 <= j <= self.ptr <= cap,
                cap == self.buffer@.len(),
                final_buf@ == self.buffer@.subrange(self.ptr as int, cap as int)
                    + self.buffer@.subrange(0, j as int),
            decreases self.ptr - j,
        {
            final_buf.push(self.buffer[j]);
            j += 1;
            proof {
                assert(final_buf@ =~= self.buffer@.subrange(self.ptr as int, cap as int)
                    + self.buffer@.subrange(0, j as int));
            }
        }
        self.closed = true;
        let mut k: usize = 0;
        proof {
            assert(final_buf@.skip(0) =~= final_buf@);
        }
        while k < final_buf.len() && final_buf[k] == 0
            invariant
                0 <= k <= final_buf.len(),
                trim_zeros(final_buf@) == trim_zeros(final_buf@.skip(k as int)),
            decreases final_buf.len() - k,
        {
            proof {
                assert(final_buf@.skip(k as int).drop_first() =~= final_buf@.skip(k as int + 1));
            }
            k += 1;
        }
        let mut out: Vec<u8> = Vec::new();
        let mut m: usize = k;
        while m < final_buf.len()
            invariant
                k <= m <= final_buf.len(),
                out@ == final_buf@.subrange(k as int, m as int),
            decreases final_buf.len() - m,
        {
            out.push(final_buf[m]);
            m += 1;
            proof {
                assert(out@ =~= final_buf@.subrange(k as int, m as int));
            }
        }
        proof {
            assert(out@ =~= final_buf@.skip(k as int));
        }
        out
    }
}

/// The ASCII bytes of `text`.
fn ascii_of(text: &str) -> (r: Vec<u8>)
    requires
        text.is_ascii(),
    ensures
        r@ == ascii_bytes(text@),
{
    broadcast use vstd::string::is_ascii_spec_bytes;

    let b = slice_to_vec(text.as_bytes());
    proof {
        assert(b@ =~= ascii_bytes(text@));
    }
    b
}

/// The line logged in place of a line of `len` bytes that did not fit.
fn oversize_warning(len: usize) -> (r: Vec<u8>)
    ensures
        r@ == oversize_line(len as nat),
        r@.len() <= MIN_BUFSIZE,
{
    let head = "Warning: message larger than buffer! Len:";
    proof {
        reveal_strlit("Warning: message larger than buffer! Len:");
        assert(head@.len() == 41);
        assert(head.is_ascii());
    }
    let mut r = ascii_of(head);
    let digits = format_u64(len as u64);
    proof {
        reveal_with_fuel(ten_pow, 21);
        assert(ten_pow(20) == 100000000000000000000nat);
        lemma_decimal_len_bound(len as nat, 20);
        lemma_digits_are_ascii(len as nat);
    }
    let mut d = ascii_of(digits.as_str());
    r.append(&mut d);
    r.push(10u8);
    r
}

/// Decimal text is ASCII.
proof fn lemma_digits_are_ascii(n: nat)
    ensures
        vstd::utf8::is_ascii_chars(decimal_text(n)),
    decreases n,
{
    crate::decimal::lemma_decimal_round_trip(n);
    let s = decimal_text(n);
    assert forall|i: int| 0 <= i < s.len() implies (#[trigger] s[i]) as u32 <= 0x7f by {
        assert(crate::decimal::is_digit(s[i]));
    }
}

/// What two lines leave in the ring is what both together leave: keeping
/// the last bytes after each of two appends is keeping the last bytes
/// after appending both.
pub proof fn lemma_keep_last_twice(content: Seq<u8>, a: Seq<u8>, b: Seq<u8>, cap: int)
    requires
        content.len() == cap,
    ensures
        keep_last(keep_last(content, a, cap), b, cap) == keep_last(content, a + b, cap),
{
    let mid = keep_last(content, a, cap);
    assert(mid.len() == cap);
    assert(keep_last(mid, b, cap) =~= keep_last(content, a + b, cap));
}

/// A line that fits is in the ring after it was logged: the ring ends with
/// the line.
pub proof fn lemma_line_is_kept(content: Seq<u8>, line: Seq<u8>, cap: int)
    requires
        content.len() == cap,
        line.len() <= cap,
    ensures
        keep_last(content, line, cap).len() == cap,
        keep_last(content, line, cap).subrange(cap - line.len(), cap) == line,
{
    assert(keep_last(content, line, cap).subrange(cap - line.len(), cap) =~= line);
}

} // verus!
