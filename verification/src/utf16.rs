//! Fixed-capacity, NUL-terminated UTF-16 strings.
//!
//! The banner block stores its titles as fixed-size arrays of 16-bit code
//! units terminated by `0x0000`.  Decoding pairs surrogates; a lone
//! surrogate is invalid and is either rejected (strict decoding) or
//! replaced (lossy decoding).

use vstd::prelude::*;

verus! {

/// The index of the first zero unit in `s`, or `s.len()` if none.
pub open spec fn nul_pos16(s: Seq<u16>) -> int
    decreases s.len(),
{
    if s.len() == 0 {
        0
    } else if s[0] == 0 {
        0
    } else {
        1 + nul_pos16(s.drop_first())
    }
}

/// `nul_pos16` is the first zero: it is in bounds, everything before it
/// is non-zero, and it points at a zero unless no unit is zero.
pub proof fn lemma_nul_pos16(s: Seq<u16>)
    ensures
        0 <= nul_pos16(s) <= s.len(),
        nul_pos16(s) < s.len() ==> s[nul_pos16(s)] == 0,
        forall|j: int| 0 <= j < nul_pos16(s) ==> s[j] != 0,
    decreases s.len(),
{
    if s.len() > 0 && s[0] != 0 {
        lemma_nul_pos16(s.drop_first());
        assert forall|j: int| 0 <= j < nul_pos16(s) implies s[j] != 0 by {
            if j > 0 {
                assert(s.drop_first()[j - 1] == s[j]);
            }
        }
    }
}

/// Whether `u` lies in the surrogate range.
pub open spec fn is_surrogate(u: u16) -> bool {
    0xD800 <= u < 0xE000
}

/// Whether `u` is a high (leading) surrogate.
pub open spec fn is_high_surrogate(u: u16) -> bool {
    0xD800 <= u < 0xDC00
}

/// Whether `u` is a low (trailing) surrogate.
pub open spec fn is_low_surrogate(u: u16) -> bool {
    0xDC00 <= u < 0xE000
}

/// The scalar value encoded by the surrogate pair `(h, l)`.
pub open spec fn pair_scalar(h: u16, l: u16) -> u32
    recommends
        is_high_surrogate(h),
        is_low_surrogate(l),
{
    (0x10000 + (h as int - 0xD800) * 0x400 + (l as int - 0xDC00)) as u32
}

/// The number of units before the first decoding violation in `s`; equal
/// to `s.len()` exactly when `s` decodes without error.
pub open spec fn first_bad16(s: Seq<u16>) -> int
    decreases s.len(),
{
    if s.len() == 0 {
        0
    } else if !is_surrogate(s[0]) {
        1 + first_bad16(s.drop_first())
    } else if is_high_surrogate(s[0]) && s.len() >= 2 && is_low_surrogate(s[1]) {
        2 + first_bad16(s.skip(2))
    } else {
        0
    }
}

/// `first_bad16` lies within the sequence.
pub proof fn lemma_first_bad16(s: Seq<u16>)
    ensures
        0 <= first_bad16(s) <= s.len(),
    decreases s.len(),
{
    if s.len() > 0 {
        if !is_surrogate(s[0]) {
            lemma_first_bad16(s.drop_first());
        } else if is_high_surrogate(s[0]) && s.len() >= 2 && is_low_surrogate(s[1]) {
            lemma_first_bad16(s.skip(2));
        }
    }
}

/// The lossy decoding of `s`, `in_run` telling whether the previous unit
/// belonged to an invalid run: valid units and surrogate pairs are
/// decoded verbatim, and each maximal run of invalid units becomes one
/// replacement character.
pub open spec fn lossy_units_from(s: Seq<u16>, in_run: bool) -> Seq<char>
    decreases s.len(),
{
    if s.len() == 0 {
        Seq::empty()
    } else if !is_surrogate(s[0]) {
        seq![(s[0] as u32) as char] + lossy_units_from(s.drop_first(), false)
    } else if is_high_surrogate(s[0]) && s.len() >= 2 && is_low_surrogate(s[1]) {
        seq![pair_scalar(s[0], s[1]) as char] + lossy_units_from(s.skip(2), false)
    } else if in_run {
        lossy_units_from(s.drop_first(), true)
    } else {
        seq!['\u{FFFD}'] + lossy_units_from(s.drop_first(), true)
    }
}

/// The lossy decoding of `s`: every maximal run of invalid units is
/// replaced by exactly one U+FFFD, and valid content is kept in order.
pub open spec fn lossy_units(s: Seq<u16>) -> Seq<char> {
    lossy_units_from(s, false)
}

/// An error in a UTF-16 string.
#[derive(Clone, Copy, Debug)]
pub struct Utf16Error {
    /// The number of units decoded before the first invalid one.
    pub valid_up_to: usize,
}

impl Utf16Error {
    /// The index in the string up to which valid UTF-16 was verified.
    pub fn valid_up_to(&self) -> (r: usize)
        ensures
            r == self.valid_up_to,
    {
        self.valid_up_to
    }
}

/// A UTF-16 string with a fixed capacity, terminated by a `0x0000` unit.
#[derive(Clone, Debug)]
pub struct Utf16 {
    chars: Vec<u16>,
}

impl View for Utf16 {
    type V = Seq<u16>;

    closed spec fn view(&self) -> Seq<u16> {
        self.chars@
    }
}

impl Utf16 {
    /// The logical content: the units before the first NUL.
    pub open spec fn content(&self) -> Seq<u16> {
        self@.take(nul_pos16(self@))
    }

    /// Wraps a backing buffer of code units.
    pub fn new(units: Vec<u16>) -> (r: Utf16)
        ensures
            r@ == units@,
    {
        Utf16 { chars: units }
    }

    /// The backing code units.
    pub fn units(&self) -> (r: &Vec<u16>)
        ensures
            r@ == self@,
    {
        &self.chars
    }

    /// The length of the string: the index of the first NUL unit, or the
    /// capacity if none occurs.
    pub fn len(&self) -> (r: usize)
        ensures
            r == nul_pos16(self@),
            r == self.content().len(),
    {
        let n = self.chars.len();
        let mut i: usize = 0;
        while i < n
            invariant
                n == self@.len(),
                i <= n,
                forall|j: int| 0 <= j < i ==> self@[j] != 0,
            decreases n - i,
        {
            if self.chars[i] == 0 {
                proof {
                    lemma_nul_pos16(self@);
                }
                return i;
            }
            i += 1;
        }
        proof {
            lemma_nul_pos16(self@);
        }
        n
    }

    /// The string content, decoded strictly: an error reports the number
    /// of units before the first lone surrogate.
    pub fn to_string(&self) -> (r: Result<String, Utf16Error>)
        ensures
            match r {
                Ok(s) => first_bad16(self.content()) == self.content().len() && s@ == lossy_units(
                    self.content(),
                ),
                Err(e) => first_bad16(self.content()) < self.content().len() && e.valid_up_to
                    == first_bad16(self.content()),
            },
    {
        let ghost cont = self.content();
        let n = self.len();
        let mut out = String::new();
        let mut i: usize = 0;
        proof {
            assert(cont.skip(0) =~= cont);
            assert(out@ + lossy_units_from(cont, false) =~= lossy_units_from(cont, false));
        }
        while i < n
            invariant
                n == cont.len(),
                cont == self.content(),
                i <= n,
                first_bad16(cont) == i + first_bad16(cont.skip(i as int)),
                lossy_units(cont) == out@ + lossy_units_from(cont.skip(i as int), false),
            decreases n - i,
        {
            let ghost rest = cont.skip(i as int);
            let ghost prev = out@;
            proof {
                lemma_nul_pos16(self@);
                assert(rest[0] == cont[i as int]);
                assert(cont[i as int] == self@[i as int]);
                assert(rest.drop_first() =~= cont.skip(i + 1));
                lemma_first_bad16(rest);
            }
            let u = self.chars[i];
            if u < 0xD800 || u >= 0xE000 {
                let c = char_of_scalar(u as u32);
                out.push(c);
                proof {
                    assert(prev + (seq![c] + lossy_units_from(cont.skip(i + 1), false)) =~= out@
                        + lossy_units_from(cont.skip(i + 1), false));
                }
                i += 1;
            } else if u < 0xDC00 && i + 1 < n && {
                let v = self.chars[i + 1];
                0xDC00 <= v && v < 0xE000
            } {
                proof {
                    assert(rest.len() >= 2 && rest[1] == cont[i + 1]);
                    assert(cont[i + 1] == self@[i + 1]);
                    assert(rest.skip(2) =~= cont.skip(i + 2));
                }
                let v = self.chars[i + 1];
                let scalar: u32 = 0x10000 + (((u as u32) - 0xD800) * 0x400) + ((v as u32) - 0xDC00);
                let c = char_of_scalar(scalar);
                out.push(c);
                proof {
                    assert(lossy_units_from(rest, false) == seq![
                        pair_scalar(rest[0], rest[1]) as char,
                    ] + lossy_units_from(rest.skip(2), false));
                    assert(prev + (seq![c] + lossy_units_from(cont.skip(i + 2), false)) =~= out@
                        + lossy_units_from(cont.skip(i + 2), false));
                }
                i += 2;
            } else {
                proof {
                    assert(first_bad16(rest) == 0);
                }
                return Err(Utf16Error { valid_up_to: i });
            }
        }
        proof {
            assert(cont.skip(n as int) =~= Seq::<u16>::empty());
            assert(out@ + Seq::<char>::empty() =~= out@);
        }
        Ok(out)
    }

    /// The string content, with every maximal run of lone surrogates
    /// replaced by one U+FFFD replacement character.
    pub fn to_string_lossy(&self) -> (r: String)
        ensures
            r@ == lossy_units(self.content()),
    {
        let ghost cont = self.content();
        let n = self.len();
        let mut out = String::new();
        let mut in_run = false;
        let mut i: usize = 0;
        proof {
            assert(cont.skip(0) =~= cont);
            assert(out@ + lossy_units_from(cont, false) =~= lossy_units_from(cont, false));
        }
        while i < n
            invariant
                n == cont.len(),
                cont == self.content(),
                i <= n,
                lossy_units(cont) == out@ + lossy_units_from(cont.skip(i as int), in_run),
            decreases n - i,
        {
            let ghost rest = cont.skip(i as int);
            let ghost prev = out@;
            proof {
                lemma_nul_pos16(self@);
                assert(rest[0] == cont[i as int]);
                assert(cont[i as int] == self@[i as int]);
                assert(rest.drop_first() =~= cont.skip(i + 1));
            }
            let u = self.chars[i];
            if u < 0xD800 || u >= 0xE000 {
                let c = char_of_scalar(u as u32);
                out.push(c);
                proof {
                    assert(prev + (seq![c] + lossy_units_from(cont.skip(i + 1), false)) =~= out@
                        + lossy_units_from(cont.skip(i + 1), false));
                }
                in_run = false;
                i += 1;
            } else if u < 0xDC00 && i + 1 < n && {
                let v = self.chars[i + 1];
                0xDC00 <= v && v < 0xE000
            } {
                proof {
                    assert(rest.len() >= 2 && rest[1] == cont[i + 1]);
                    assert(cont[i + 1] == self@[i + 1]);
                    assert(rest.skip(2) =~= cont.skip(i + 2));
                }
                let v = self.chars[i + 1];
                let scalar: u32 = 0x10000 + (((u as u32) - 0xD800) * 0x400) + ((v as u32) - 0xDC00);
                let c = char_of_scalar(scalar);
                out.push(c);
                proof {
                    assert(lossy_units_from(rest, in_run) == seq![
                        pair_scalar(rest[0], rest[1]) as char,
                    ] + lossy_units_from(rest.skip(2), false));
                    assert(prev + (seq![c] + lossy_units_from(cont.skip(i + 2), false)) =~= out@
                        + lossy_units_from(cont.skip(i + 2), false));
                }
                in_run = false;
                i += 2;
            } else if in_run {
                i += 1;
            } else {
                out.push('\u{FFFD}');
                proof {
                    assert(lossy_units_from(rest, false) == seq![
                        '\u{FFFD}',
                    ] + lossy_units_from(cont.skip(i + 1), true));
                    assert(prev + (seq!['\u{FFFD}'] + lossy_units_from(cont.skip(i + 1), true))
                        =~= out@ + lossy_units_from(cont.skip(i + 1), true));
                }
                in_run = true;
                i += 1;
            }
        }
        proof {
            assert(cont.skip(n as int) =~= Seq::<u16>::empty());
            assert(out@ + Seq::<char>::empty() =~= out@);
        }
        out
    }
}

/// The character with code point `u`, which must be a Unicode scalar
/// value.
fn char_of_scalar(u: u32) -> (c: char)
    requires
        u < 0xD800 || (0xE000 <= u && u <= 0x10FFFF),
    ensures
        c == (u as char),
        c as u32 == u,
{
    let r = char::from_u32(u);
    match r {
        Some(c) => {
            proof {
                vstd::utf8::char_u32_cast(c, u);
            }
            c
        },
        None => {
            proof {
                assert(false);
            }
            ' '
        },
    }
}


/// On input free of surrogates the lossy decoding holds no replacement:
/// it is the character-for-unit decoding of the input, every unit kept
/// in order.
pub proof fn lemma_lossy_units_all_valid(s: Seq<u16>)
    requires
        forall|i: int| 0 <= i < s.len() ==> !is_surrogate(#[trigger] s[i]),
    ensures
        lossy_units(s).len() == s.len(),
        forall|i: int| 0 <= i < s.len() ==> (#[trigger] lossy_units(s)[i]) as u32 == s[i] as u32,
    decreases s.len(),
{
    if s.len() > 0 {
        assert(forall|i: int|
            0 <= i < s.drop_first().len() ==> (#[trigger] s.drop_first()[i]) == s[i + 1]);
        lemma_lossy_units_all_valid(s.drop_first());
        let c = (s[0] as u32) as char;
        vstd::utf8::char_u32_cast(c, s[0] as u32);
        assert forall|i: int| 0 <= i < s.len() implies (#[trigger] lossy_units(s)[i]) as u32
            == s[i] as u32 by {
            if i > 0 {
                assert(lossy_units(s)[i] == lossy_units_from(s.drop_first(), false)[i - 1]);
            }
        }
    }
}

} // verus!
