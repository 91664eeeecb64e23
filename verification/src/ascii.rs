//! Fixed-capacity, NUL-terminated ASCII strings.
//!
//! The cartridge header stores its title, game code and maker code as
//! fixed-size byte arrays padded with `0x00`.  The logical content is the
//! prefix up to the first NUL; bytes outside the ASCII range are either
//! rejected (strict decoding) or replaced (lossy decoding).

use vstd::prelude::*;

verus! {

/// The index of the first zero byte in `s`, or `s.len()` if none.
pub open spec fn nul_pos(s: Seq<u8>) -> int
    decreases s.len(),
{
    if s.len() == 0 {
        0
    } else if s[0] == 0 {
        0
    } else {
        1 + nul_pos(s.drop_first())
    }
}

/// `nul_pos` is the first zero: it is in bounds, everything before it is
/// non-zero, and it points at a zero unless no byte is zero.
pub proof fn lemma_nul_pos(s: Seq<u8>)
    ensures
        0 <= nul_pos(s) <= s.len(),
        nul_pos(s) < s.len() ==> s[nul_pos(s)] == 0,
        forall|j: int| 0 <= j < nul_pos(s) ==> s[j] != 0,
    decreases s.len(),
{
    if s.len() > 0 && s[0] != 0 {
        lemma_nul_pos(s.drop_first());
        assert forall|j: int| 0 <= j < nul_pos(s) implies s[j] != 0 by {
            if j > 0 {
                assert(s.drop_first()[j - 1] == s[j]);
            }
        }
    }
}

/// The index of the first byte outside the ASCII range, or `s.len()` if
/// every byte is ASCII.
pub open spec fn first_non_ascii(s: Seq<u8>) -> int
    decreases s.len(),
{
    if s.len() == 0 {
        0
    } else if s[0] >= 0x80 {
        0
    } else {
        1 + first_non_ascii(s.drop_first())
    }
}

/// `first_non_ascii` is the first violation: everything before it is
/// ASCII, and it points at a non-ASCII byte unless there is none.
pub proof fn lemma_first_non_ascii(s: Seq<u8>)
    ensures
        0 <= first_non_ascii(s) <= s.len(),
        first_non_ascii(s) < s.len() ==> s[first_non_ascii(s)] >= 0x80,
        forall|j: int| 0 <= j < first_non_ascii(s) ==> s[j] < 0x80,
    decreases s.len(),
{
    if s.len() > 0 && s[0] < 0x80 {
        lemma_first_non_ascii(s.drop_first());
        assert forall|j: int| 0 <= j < first_non_ascii(s) implies s[j] < 0x80 by {
            if j > 0 {
                assert(s.drop_first()[j - 1] == s[j]);
            }
        }
    }
}

/// `cs` is the character-for-byte decoding of `bytes`.
pub open spec fn decodes_bytes(bytes: Seq<u8>, cs: Seq<char>) -> bool {
    &&& cs.len() == bytes.len()
    &&& forall|i: int| 0 <= i < bytes.len() ==> (#[trigger] cs[i]) as u32 == bytes[i] as u32
}

/// The lossy decoding of `bytes`, `in_run` telling whether the previous
/// byte belonged to an invalid run: ASCII bytes are copied verbatim, and
/// each maximal run of non-ASCII bytes becomes one replacement character.
pub open spec fn lossy_bytes_from(bytes: Seq<u8>, in_run: bool) -> Seq<char>
    decreases bytes.len(),
{
    if bytes.len() == 0 {
        Seq::empty()
    } else if bytes[0] < 0x80 {
        seq![(bytes[0] as u32) as char] + lossy_bytes_from(bytes.drop_first(), false)
    } else if in_run {
        lossy_bytes_from(bytes.drop_first(), true)
    } else {
        seq!['\u{FFFD}'] + lossy_bytes_from(bytes.drop_first(), true)
    }
}

/// The lossy decoding of `bytes`: every maximal run of non-ASCII bytes is
/// replaced by exactly one U+FFFD, and ASCII bytes are kept in order.
pub open spec fn lossy_bytes(bytes: Seq<u8>) -> Seq<char> {
    lossy_bytes_from(bytes, false)
}

/// On all-ASCII input the lossy decoding holds no replacement: it is the
/// character-for-byte decoding of the input.
pub proof fn lemma_lossy_bytes_all_ascii(bytes: Seq<u8>)
    requires
        forall|i: int| 0 <= i < bytes.len() ==> bytes[i] < 0x80,
    ensures
        decodes_bytes(bytes, lossy_bytes(bytes)),
    decreases bytes.len(),
{
    if bytes.len() > 0 {
        lemma_lossy_bytes_all_ascii(bytes.drop_first());
    }
}

/// An error in an ASCII string.
#[derive(Clone, Copy, Debug)]
pub struct AsciiError {
    /// The index of the first invalid byte.
    pub valid_up_to: usize,
}

impl AsciiError {
    /// The index in the string up to which valid ASCII was verified.
    pub fn valid_up_to(&self) -> (r: usize)
        ensures
            r == self.valid_up_to,
    {
        self.valid_up_to
    }
}

/// An ASCII string with a fixed capacity, terminated by a `0x00` byte.
#[derive(Clone, Debug)]
pub struct Ascii {
    /// The backing bytes; the capacity is their number.
    pub buf: Vec<u8>,
}

impl Ascii {
    /// The logical content: the bytes before the first NUL.
    pub open spec fn content(&self) -> Seq<u8> {
        self.buf@.take(nul_pos(self.buf@))
    }

    /// Wraps a backing buffer.
    pub fn new(buf: Vec<u8>) -> (r: Ascii)
        ensures
            r.buf@ == buf@,
    {
        Ascii { buf }
    }

    /// The length of the string: the index of the first NUL byte, or the
    /// capacity if none occurs.
    pub fn len(&self) -> (r: usize)
        ensures
            r == nul_pos(self.buf@),
            r == self.content().len(),
    {
        let n = self.buf.len();
        let mut i: usize = 0;
        while i < n
            invariant
                n == self.buf@.len(),
                i <= n,
                forall|j: int| 0 <= j < i ==> self.buf@[j] != 0,
            decreases n - i,
        {
            if self.buf[i] == 0 {
                proof {
                    lemma_nul_pos(self.buf@);
                }
                return i;
            }
            i += 1;
        }
        proof {
            lemma_nul_pos(self.buf@);
        }
        n
    }

    /// The string content as a byte slice.
    pub fn as_bytes(&self) -> (r: &[u8])
        ensures
            r@ == self.content(),
    {
        let n = self.len();
        proof {
            lemma_nul_pos(self.buf@);
            assert(self.buf@.subrange(0, nul_pos(self.buf@)) =~= self.content());
        }
        &self.buf.as_slice()[0..n]
    }

    /// The string content, decoded strictly: an error reports the index
    /// of the first non-ASCII byte.
    pub fn to_str(&self) -> (r: Result<String, AsciiError>)
        ensures
            match r {
                Ok(s) => first_non_ascii(self.content()) == self.content().len() && decodes_bytes(
                    self.content(),
                    s@,
                ),
                Err(e) => first_non_ascii(self.content()) < self.content().len()
                    && e.valid_up_to == first_non_ascii(self.content()),
            },
    {
        let ghost cont = self.content();
        let n = self.len();
        let mut out = String::new();
        let mut i: usize = 0;
        while i < n
            invariant
                n == cont.len(),
                cont == self.content(),
                i <= n,
                forall|j: int| 0 <= j < i ==> cont[j] < 0x80,
                decodes_bytes(cont.take(i as int), out@),
            decreases n - i,
        {
            proof {
                lemma_nul_pos(self.buf@);
                assert(cont[i as int] == self.buf@[i as int]);
            }
            let b = self.buf[i];
            if b >= 0x80 {
                proof {
                    lemma_first_non_ascii(cont);
                }
                return Err(AsciiError { valid_up_to: i });
            }
            let ghost prev = out@;
            out.push(b as char);
            proof {
                assert(cont.take(i + 1) =~= cont.take(i as int).push(cont[i as int]));
                assert(out@ == prev.push((b as char)));
            }
            i += 1;
        }
        proof {
            assert(cont.take(n as int) =~= cont);
            lemma_first_non_ascii(cont);
        }
        Ok(out)
    }

    /// The string content, with every maximal run of non-ASCII bytes
    /// replaced by one U+FFFD replacement character.
    pub fn to_string_lossy(&self) -> (r: String)
        ensures
            r@ == lossy_bytes(self.content()),
    {
        let ghost cont = self.content();
        let n = self.len();
        let mut out = String::new();
        let mut in_run = false;
        let mut i: usize = 0;
        proof {
            assert(cont.skip(0) =~= cont);
            assert(out@ + lossy_bytes_from(cont, false) =~= lossy_bytes_from(cont, false));
        }
        while i < n
            invariant
                n == cont.len(),
                cont == self.content(),
                i <= n,
                lossy_bytes(cont) == out@ + lossy_bytes_from(cont.skip(i as int), in_run),
            decreases n - i,
        {
            proof {
                lemma_nul_pos(self.buf@);
                assert(cont[i as int] == self.buf@[i as int]);
                assert(cont.skip(i as int)[0] == cont[i as int]);
                assert(cont.skip(i as int).drop_first() =~= cont.skip(i + 1));
            }
            let ghost prev = out@;
            let ghost rest = cont.skip(i as int);
            let b = self.buf[i];
            if b < 0x80 {
                let c = b as char;
                out.push(c);
                proof {
                    vstd::utf8::char_u32_cast(c, b as u32);
                    assert(lossy_bytes_from(rest, in_run) == seq![
                        (b as u32) as char,
                    ] + lossy_bytes_from(cont.skip(i + 1), false));
                    assert(prev + (seq![c] + lossy_bytes_from(cont.skip(i + 1), false)) =~= out@
                        + lossy_bytes_from(cont.skip(i + 1), false));
                }
                in_run = false;
            } else if !in_run {
                out.push('\u{FFFD}');
                proof {
                    assert(lossy_bytes_from(rest, false) == seq![
                        '\u{FFFD}',
                    ] + lossy_bytes_from(cont.skip(i + 1), true));
                    assert(prev + (seq!['\u{FFFD}'] + lossy_bytes_from(cont.skip(i + 1), true))
                        =~= out@ + lossy_bytes_from(cont.skip(i + 1), true));
                }
                in_run = true;
            }
            i += 1;
        }
        proof {
            assert(cont.skip(n as int) =~= Seq::<u8>::empty());
            assert(out@ + Seq::<char>::empty() =~= out@);
        }
        out
    }
}

} // verus!
