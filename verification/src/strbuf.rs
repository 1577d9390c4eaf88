//! Small string buffers and verified decimal formatting.
//!
//! `Sb255` is the kernel's tiny fixed buffer: one length byte and up to 255
//! content bytes, cleared and refilled in place. `StringBuffer` is the
//! growable buffer the statistics listing is printed into; its append
//! operations state exactly which bytes they add, including a decimal
//! rendering with optional padding, so a formatted report can be specified
//! byte for byte.

use vstd::prelude::*;
use vstd::string::StringSliceAdditionalSpecFns;

verus! {

/// A fixed 256-byte string buffer: byte zero holds the length, the content
/// follows.
pub struct Sb255 {
    buf: Vec<u8>,
}

impl Sb255 {
    /// The stored content bytes.
    pub closed spec fn view(self) -> Seq<u8> {
        self.buf@.subrange(1, self.buf@[0] + 1)
    }

    pub closed spec fn wf(self) -> bool {
        self.buf@.len() == 256
    }

    /// An empty buffer.
    pub fn new() -> (r: Self)
        ensures
            r.wf(),
            r.view() == Seq::<u8>::empty(),
    {
        let mut buf: Vec<u8> = Vec::new();
        let mut i: usize = 0;
        while i < 256
            invariant
                i <= 256,
                buf@.len() == i,
                forall|k: int| 0 <= k < i ==> buf@[k] == 0u8,
            decreases 256 - i,
        {
            buf.push(0);
            i = i + 1;
        }
        let r = Sb255 { buf };
        proof {
            assert(r.view() =~= Seq::<u8>::empty());
        }
        r
    }

    /// Forget the content; the buffer is empty again.
    pub fn clear(&mut self)
        requires
            old(self).wf(),
        ensures
            final(self).wf(),
            final(self).view() == Seq::<u8>::empty(),
    {
        self.buf.set(0, 0);
        proof {
            assert(self.view() =~= Seq::<u8>::empty());
        }
    }

    /// The stored length.
    pub fn len(&self) -> (r: usize)
        requires
            self.wf(),
        ensures
            r == self.view().len(),
    {
        self.buf[0] as usize
    }

    /// The stored content, as a fresh byte vector.
    pub fn as_bytes(&self) -> (r: Vec<u8>)
        requires
            self.wf(),
        ensures
            r@ == self.view(),
    {
        let len = self.buf[0] as usize;
        let mut out: Vec<u8> = Vec::new();
        let mut i: usize = 1;
        while i < len + 1
            invariant
                self.wf(),
                len == self.buf@[0],
                1 <= i <= len + 1,
                out@.len() == i - 1,
                forall|k: int| 0 <= k < i - 1 ==> out@[k] == self.buf@[k + 1],
            decreases len + 1 - i,
        {
            out.push(self.buf[i]);
            i = i + 1;
        }
        proof {
            assert(out@ =~= self.view());
        }
        out
    }

    /// Append the bytes of `s`; the buffer holds at most 255 bytes in all.
    pub fn write_str(&mut self, s: &str)
        requires
            old(self).wf(),
            old(self).view().len() + s.spec_bytes().len() <= 255,
        ensures
            final(self).wf(),
            final(self).view() == old(self).view() + s.spec_bytes(),
    {
        let bytes = s.as_bytes();
        let old_len = self.buf[0] as usize;
        let mut i: usize = 0;
        while i < bytes.len()
            invariant
                self.buf@.len() == 256,
                old_len == old(self).buf@[0],
                old_len + bytes@.len() <= 255,
                i <= bytes@.len(),
                self.buf@[0] == old(self).buf@[0],
                forall|k: int| 1 <= k < old_len + 1 ==> self.buf@[k] == old(self).buf@[k],
                forall|k: int| 0 <= k < i ==> self.buf@[old_len + 1 + k] == bytes@[k],
            decreases bytes@.len() - i,
        {
            self.buf.set(old_len + 1 + i, bytes[i]);
            i = i + 1;
        }
        self.buf.set(0, (old_len + bytes.len()) as u8);
        proof {
            assert(final(self).view() =~= old(self).view() + s.spec_bytes());
        }
    }
}

/// The decimal digits of `v`, most significant first.
pub open spec fn spec_decimal(v: int) -> Seq<u8>
    decreases v,
{
    if v < 0 {
        Seq::empty()
    } else if v < 10 {
        seq![(48 + v) as u8]
    } else {
        spec_decimal(v / 10).push((48 + v % 10) as u8)
    }
}

/// How many decimal digits `v` prints as.
pub open spec fn spec_decimal_len(v: int) -> int {
    spec_decimal(v).len() as int
}

/// `v` in decimal, left-padded with `fill` to at least `width` characters.
pub open spec fn spec_decimal_pad(v: int, width: int, fill: u8) -> Seq<u8> {
    if spec_decimal_len(v) >= width {
        spec_decimal(v)
    } else {
        Seq::new((width - spec_decimal_len(v)) as nat, |i: int| fill) + spec_decimal(v)
    }
}

/// A growable byte buffer with exactly specified append operations.
pub struct StringBuffer {
    data: Vec<u8>,
}

impl StringBuffer {
    /// The bytes held.
    pub closed spec fn view(self) -> Seq<u8> {
        self.data@
    }

    /// An empty buffer.
    pub fn new() -> (r: Self)
        ensures
            r.view() == Seq::<u8>::empty(),
    {
        StringBuffer { data: Vec::new() }
    }

    /// Forget the content.
    pub fn clear(&mut self)
        ensures
            final(self).view() == Seq::<u8>::empty(),
    {
        self.data.clear();
    }

    /// The number of bytes held.
    pub fn len(&self) -> (r: usize)
        ensures
            r == self.view().len(),
    {
        self.data.len()
    }

    /// The bytes held, as a fresh vector.
    pub fn as_bytes(&self) -> (r: Vec<u8>)
        ensures
            r@ == self.view(),
    {
        let mut out: Vec<u8> = Vec::new();
        let mut i: usize = 0;
        while i < self.data.len()
            invariant
                i <= self.data@.len(),
                out@.len() == i,
                forall|k: int| 0 <= k < i ==> out@[k] == self.data@[k],
            decreases self.data@.len() - i,
        {
            out.push(self.data[i]);
            i = i + 1;
        }
        proof {
            assert(out@ =~= self.data@);
        }
        out
    }

    /// Append one byte.
    pub fn push_byte(&mut self, b: u8)
        ensures
            final(self).view() == old(self).view().push(b),
    {
        self.data.push(b);
    }

    /// Append the bytes of `s`.
    pub fn append_str(&mut self, s: &str)
        ensures
            final(self).view() == old(self).view() + s.spec_bytes(),
    {
        let bytes = s.as_bytes();
        let mut i: usize = 0;
        while i < bytes.len()
            invariant
                i <= bytes@.len(),
                bytes@ == s.spec_bytes(),
                self.data@ == old(self).data@ + bytes@.subrange(0, i as int),
            decreases bytes@.len() - i,
        {
            let b = bytes[i];
            self.data.push(b);
            proof {
                assert(old(self).data@ + bytes@.subrange(0, i + 1) =~= (old(self).data@
                    + bytes@.subrange(0, i as int)).push(b));
            }
            i = i + 1;
        }
        proof {
            assert(bytes@.subrange(0, bytes@.len() as int) =~= bytes@);
        }
    }

    /// Append the bytes of a vector.
    pub fn append_bytes(&mut self, bytes: &Vec<u8>)
        ensures
            final(self).view() == old(self).view() + bytes@,
    {
        let mut i: usize = 0;
        while i < bytes.len()
            invariant
                i <= bytes@.len(),
                self.data@ == old(self).data@ + bytes@.subrange(0, i as int),
            decreases bytes@.len() - i,
        {
            let b = bytes[i];
            self.data.push(b);
            proof {
                assert(old(self).data@ + bytes@.subrange(0, i + 1) =~= (old(self).data@
                    + bytes@.subrange(0, i as int)).push(b));
            }
            i = i + 1;
        }
        proof {
            assert(bytes@.subrange(0, bytes@.len() as int) =~= bytes@);
        }
    }

    /// Append `v` in decimal.
    pub fn append_decimal(&mut self, v: usize)
        ensures
            final(self).view() == old(self).view() + spec_decimal(v as int),
        decreases v,
    {
        if v >= 10 {
            self.append_decimal(v / 10);
        }
        self.data.push(48 + (v % 10) as u8);
        proof {
            if v < 10 {
                assert(old(self).view() + spec_decimal(v as int) =~= old(self).view().push(
                    (48 + v % 10) as u8,
                ));
            } else {
                assert(old(self).view() + spec_decimal(v as int) =~= (old(self).view()
                    + spec_decimal(v as int / 10)).push((48 + v % 10) as u8));
            }
        }
    }

    /// The number of decimal digits of `v`.
    fn decimal_len(v: usize) -> (r: usize)
        ensures
            r == spec_decimal_len(v as int),
            1 <= r,
        decreases v,
    {
        proof {
            lemma_decimal_len_bound(v as int);
        }
        if v < 10 {
            1
        } else {
            let rest = Self::decimal_len(v / 10);
            proof {
                lemma_decimal_len_bound(v as int / 10);
                assert(rest <= v / 10 + 1);
            }
            1 + rest
        }
    }

    /// Append `v` in decimal, left-padded with `fill` to at least `width`
    /// characters.
    pub fn append_decimal_pad(&mut self, v: usize, width: usize, fill: u8)
        requires
            width <= 32,
        ensures
            final(self).view() == old(self).view() + spec_decimal_pad(
                v as int,
                width as int,
                fill,
            ),
    {
        let digits = Self::decimal_len(v);
        let mut pad: usize = 0;
        if digits < width {
            let ghost pre = self.data@;
            while pad < width - digits
                invariant
                    digits < width <= 32,
                    pad <= width - digits,
                    digits == spec_decimal_len(v as int),
                    self.data@ == pre + Seq::new(pad as nat, |i: int| fill),
                decreases width - digits - pad,
            {
                self.data.push(fill);
                proof {
                    assert(pre + Seq::new((pad + 1) as nat, |i: int| fill) =~= (pre + Seq::new(
                        pad as nat,
                        |i: int| fill,
                    )).push(fill));
                }
                pad = pad + 1;
            }
        }
        self.append_decimal(v);
        proof {
            if spec_decimal_len(v as int) < width {
                assert(final(self).view() =~= old(self).view() + spec_decimal_pad(
                    v as int,
                    width as int,
                    fill,
                ));
            } else {
                assert(final(self).view() =~= old(self).view() + spec_decimal_pad(
                    v as int,
                    width as int,
                    fill,
                ));
            }
        }
    }
}

/// Every value prints as at least one digit, and no more digits than its
/// magnitude allows.
proof fn lemma_decimal_len_bound(v: int)
    requires
        0 <= v,
    ensures
        1 <= spec_decimal_len(v) <= v + 1,
        v < 10 ==> spec_decimal_len(v) == 1,
        v >= 10 ==> spec_decimal_len(v) == 1 + spec_decimal_len(v / 10),
    decreases v,
{
    if v >= 10 {
        lemma_decimal_len_bound(v / 10);
    }
}

} // verus!
