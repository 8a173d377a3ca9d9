//! A fixed-capacity string: a fixed-capacity byte vector whose bytes are always valid UTF-8.

pub mod error;

use crate::string::error::Error;
use crate::vec::StaticVec;
use core::char::DecodeUtf16Error;
use core::str::Utf8Error;
use vstd::prelude::*;
use vstd::string::StrSliceExecFns;
use vstd::string::StringSliceAdditionalSpecFns;
use vstd::utf8::*;

verus! {

broadcast use {
    vstd::utf8::valid_utf8_concat,
    vstd::utf8::valid_utf8_split,
    vstd::utf8::is_char_boundary_start_end_of_seq,
    vstd::utf8::is_char_boundary_iff_not_is_continuation_byte,
    vstd::utf8::encode_utf8_valid_utf8,
    vstd::utf8::decode_utf8_encode_utf8,
};

/// A leading unit of a UTF-16 surrogate pair.
pub open spec fn is_high_surrogate(u: u16) -> bool {
    0xD800 <= u <= 0xDBFF
}

/// A trailing unit of a UTF-16 surrogate pair.
pub open spec fn is_low_surrogate(u: u16) -> bool {
    0xDC00 <= u <= 0xDFFF
}

/// The characters that `units` encode in UTF-16, or `None` where a surrogate is unpaired.
pub open spec fn utf16_chars(units: Seq<u16>) -> Option<Seq<char>>
    decreases units.len(),
{
    if units.len() == 0 {
        Some(Seq::empty())
    } else if is_low_surrogate(units[0]) {
        None
    } else if is_high_surrogate(units[0]) {
        if units.len() >= 2 && is_low_surrogate(units[1]) {
            match utf16_chars(units.subrange(2, units.len() as int)) {
                Some(rest) => Some(
                    seq![
                        ((0x10000 + (units[0] - 0xD800) * 0x400 + (units[1] - 0xDC00)) as u32) as char,
                    ] + rest,
                ),
                None => None,
            }
        } else {
            None
        }
    } else {
        match utf16_chars(units.drop_first()) {
            Some(rest) => Some(seq![(units[0] as u32) as char] + rest),
            None => None,
        }
    }
}

/// The byte length of the character whose encoding starts at `index` in `bytes`.
pub open spec fn char_width_at(bytes: Seq<u8>, index: int) -> int {
    length_of_first_scalar(bytes.subrange(index, bytes.len() as int))
}

/// The character whose encoding starts at `index` in `bytes`.
pub open spec fn char_at(bytes: Seq<u8>, index: int) -> char {
    decode_utf8(bytes.subrange(index, bytes.len() as int))[0]
}

/// The bytes between two character boundaries of valid UTF-8 are valid UTF-8.
proof fn lemma_valid_between(bytes: Seq<u8>, start: int, end: int)
    requires
        valid_utf8(bytes),
        0 <= start <= end <= bytes.len(),
        is_char_boundary(bytes, start),
        is_char_boundary(bytes, end),
    ensures
        valid_utf8(bytes.subrange(start, end)),
{
    let suffix = bytes.subrange(start, bytes.len() as int);
    assert(valid_utf8(suffix));
    is_char_boundary_start_end_of_seq(suffix);
    if end < bytes.len() {
        is_char_boundary_iff_not_is_continuation_byte(bytes, end);
        is_char_boundary_iff_not_is_continuation_byte(suffix, end - start);
        assert(suffix[end - start] == bytes[end]);
    }
    assert(is_char_boundary(suffix, end - start));
    assert(valid_utf8(suffix.subrange(0, end - start)));
    assert(suffix.subrange(0, end - start) =~= bytes.subrange(start, end));
}

/// Relies on `core::str::from_utf8`: it succeeds exactly on valid UTF-8, and the string it
/// returns holds the same bytes.
#[verifier::external_body]
fn str_from_utf8<'a>(bytes: &'a [u8]) -> (r: Result<&'a str, Utf8Error>)
    ensures
        r is Ok <==> valid_utf8(bytes@),
        r matches Ok(s) ==> s@ == decode_utf8(bytes@),
{
    core::str::from_utf8(bytes)
}

/// Relies on `char::decode_utf16`: it yields each character of `units` in turn, and an error
/// for an unpaired surrogate.
#[verifier::external_body]
fn decode_utf16_units(units: &[u16]) -> (r: Result<String, DecodeUtf16Error>)
    ensures
        r is Ok <==> utf16_chars(units@) is Some,
        r matches Ok(s) ==> Some(s@) == utf16_chars(units@),
{
    char::decode_utf16(units.iter().copied()).collect()
}

/// Relies on `From<char>` for `String`: a string of the one character.
#[verifier::external_body]
fn char_to_string(c: char) -> (r: String)
    ensures
        r@ == seq![c],
{
    String::from(c)
}

/// A string that holds at most `N` bytes of UTF-8.
#[derive(Debug)]
pub struct StaticString<const N: usize> {
    vec: StaticVec<u8, N>,
}

impl<const N: usize> View for StaticString<N> {
    type V = Seq<u8>;

    /// The string's bytes.
    closed spec fn view(&self) -> Seq<u8> {
        self.vec@
    }
}

impl<const N: usize> StaticString<N> {
    /// No more than `N` bytes, and they are valid UTF-8.
    pub open spec fn well_formed(&self) -> bool {
        self@.len() <= N && valid_utf8(self@)
    }

    /// The characters that the bytes encode.
    pub open spec fn chars(&self) -> Seq<char> {
        decode_utf8(self@)
    }

    /// An empty string.
    pub fn new() -> (r: Self)
        ensures
            r@ == Seq::<u8>::empty(),
            r.well_formed(),
    {
        let r = StaticString { vec: StaticVec::new() };
        assert(valid_utf8(r@));
        r
    }

    /// The string holding `bytes`, which must be valid UTF-8 and no more than `N` long.
    pub fn from_utf8(bytes: &[u8]) -> (r: Result<Self, Error>)
        ensures
            valid_utf8(bytes@) && bytes@.len() <= N ==> (r matches Ok(s) && s@ == bytes@
                && s.well_formed()),
            !valid_utf8(bytes@) ==> (r matches Err(e) && e is Utf8),
            valid_utf8(bytes@) && bytes@.len() > N ==> r == Err::<Self, Error>(
                Error::OutOfBounds,
            ),
    {
        match str_from_utf8(bytes) {
            Err(e) => Err(Error::from(e)),
            Ok(_) => {
                if bytes.len() > N {
                    Err(Error::OutOfBounds)
                } else {
                    Ok(StaticString { vec: StaticVec::new_from_slice(bytes) })
                }
            },
        }
    }

    /// The string holding the bytes of `s`, which must be no more than `N` long.
    pub fn try_from_str(s: &str) -> (r: Result<Self, Error>)
        ensures
            s.spec_bytes().len() <= N ==> (r matches Ok(t) && t@ == s.spec_bytes()
                && t.well_formed()),
            s.spec_bytes().len() > N ==> r == Err::<Self, Error>(Error::OutOfBounds),
    {
        let bytes = s.as_bytes();
        if bytes.len() > N {
            Err(Error::OutOfBounds)
        } else {
            Ok(StaticString { vec: StaticVec::new_from_slice(bytes) })
        }
    }

    /// The string holding the characters that `units` encode in UTF-16, where their UTF-8
    /// encoding is no more than `N` bytes long.
    pub fn from_utf16(units: &[u16]) -> (r: Result<Self, Error>)
        ensures
            utf16_chars(units@) is None ==> (r matches Err(e) && e is Utf16),
            utf16_chars(units@) matches Some(cs) ==> {
                &&& encode_utf8(cs).len() <= N ==> (r matches Ok(t) && t@ == encode_utf8(
                    cs,
                ) && t.well_formed())
                &&& encode_utf8(cs).len() > N ==> r == Err::<Self, Error>(Error::OutOfBounds)
            },
    {
        match decode_utf16_units(units) {
            Err(e) => Err(Error::from(e)),
            Ok(s) => Self::try_from_str(s.as_str()),
        }
    }

    /// The fixed capacity `N`, in bytes.
    pub fn capacity(&self) -> (r: usize)
        ensures
            r == N,
    {
        N
    }

    /// The length in bytes.
    pub fn len(&self) -> (r: usize)
        ensures
            r == self@.len(),
    {
        self.vec.len()
    }

    pub fn is_empty(&self) -> (r: bool)
        ensures
            r == (self@.len() == 0),
    {
        self.vec.is_empty()
    }

    /// The string's bytes.
    pub fn as_bytes(&self) -> (r: &[u8])
        ensures
            r@ == self@,
    {
        self.vec.as_slice()
    }

    /// The string as a `str`.
    pub fn as_str(&self) -> (r: &str)
        requires
            self.well_formed(),
        ensures
            r@ == self.chars(),
            r.spec_bytes() == self@,
    {
        match str_from_utf8(self.vec.as_slice()) {
            Ok(s) => s,
            Err(_) => {
                assert(false);
                ""
            },
        }
    }

    /// Whether `index` is at most the length and starts a character (or ends the string).
    fn check_index(&self, index: usize) -> (r: Result<(), Error>)
        requires
            self.well_formed(),
        ensures
            index > self@.len() ==> r == Err::<(), Error>(Error::OutOfBounds),
            index <= self@.len() && is_char_boundary(self@, index as int) ==> r is Ok,
            index <= self@.len() && !is_char_boundary(self@, index as int) ==> r == Err::<
                (),
                Error,
            >(Error::NotCharBoundary),
    {
        let bytes = self.vec.as_slice();
        proof {
            is_char_boundary_start_end_of_seq(self@);
            if index < self@.len() {
                is_char_boundary_iff_not_is_continuation_byte(self@, index as int);
            }
        }
        if index > bytes.len() {
            Err(Error::OutOfBounds)
        } else if index == bytes.len() {
            Ok(())
        } else if 0x80 <= bytes[index] && bytes[index] <= 0xbf {
            Err(Error::NotCharBoundary)
        } else {
            Ok(())
        }
    }

    /// Places `bytes` at `index`, shifting the later bytes up.
    fn insert_bytes(&mut self, index: usize, bytes: &[u8])
        requires
            old(self).vec.well_formed(),
            index <= old(self)@.len(),
            old(self)@.len() + bytes@.len() <= N,
        ensures
            final(self)@ == old(self)@.subrange(0, index as int) + bytes@ + old(self)@.subrange(
                index as int,
                old(self)@.len() as int,
            ),
    {
        let ghost pre = self@;
        let mut j: usize = 0;
        while j < bytes.len()
            invariant
                self.vec.well_formed(),
                index <= pre.len(),
                pre.len() + bytes@.len() <= N,
                j <= bytes@.len(),
                self@ == pre.subrange(0, index as int) + bytes@.take(j as int) + pre.subrange(
                    index as int,
                    pre.len() as int,
                ),
            decreases bytes@.len() - j,
        {
            let _ = self.vec.insert(index + j, bytes[j]);
            j += 1;
            assert(self@ =~= pre.subrange(0, index as int) + bytes@.take(j as int) + pre.subrange(
                index as int,
                pre.len() as int,
            ));
        }
        assert(bytes@.take(j as int) =~= bytes@);
    }

    /// Removes `count` bytes from `index` on, shifting the later bytes down.
    fn remove_bytes(&mut self, index: usize, count: usize)
        requires
            old(self).vec.well_formed(),
            index + count <= old(self)@.len(),
        ensures
            final(self).vec.well_formed(),
            final(self)@ == old(self)@.subrange(0, index as int) + old(self)@.subrange(
                index + count,
                old(self)@.len() as int,
            ),
    {
        let ghost pre = self@;
        let mut j: usize = 0;
        while j < count
            invariant
                self.vec.well_formed(),
                index + count <= pre.len(),
                j <= count,
                self@ == pre.subrange(0, index as int) + pre.subrange(index + j, pre.len() as int),
            decreases count - j,
        {
            let _ = self.vec.remove(index);
            j += 1;
            assert(self@ =~= pre.subrange(0, index as int) + pre.subrange(
                index + j,
                pre.len() as int,
            ));
        }
    }

    /// Drops the bytes from `len` on; `len` must end a character.
    pub fn truncate(&mut self, len: usize) -> (r: Result<(), Error>)
        requires
            old(self).well_formed(),
        ensures
            final(self).well_formed(),
            len > old(self)@.len() ==> r == Err::<(), Error>(Error::OutOfBounds)
                && final(self)@ == old(self)@,
            len <= old(self)@.len() && !is_char_boundary(old(self)@, len as int) ==> r == Err::<
                (),
                Error,
            >(Error::NotCharBoundary) && final(self)@ == old(self)@,
            len <= old(self)@.len() && is_char_boundary(old(self)@, len as int) ==> r is Ok
                && final(self)@ == old(self)@.take(len as int),
    {
        match self.check_index(len) {
            Err(e) => Err(e),
            Ok(()) => {
                proof {
                    assert(self@.take(len as int) =~= self@.subrange(0, len as int));
                }
                self.vec.truncate(len);
                Ok(())
            },
        }
    }

    /// Appends the bytes of `s`, where they fit.
    pub fn push_str(&mut self, s: &str) -> (r: Result<(), Error>)
        requires
            old(self).well_formed(),
        ensures
            final(self).well_formed(),
            old(self)@.len() + s.spec_bytes().len() <= N ==> r is Ok && final(self)@ == old(self)@ + s.spec_bytes(),
            old(self)@.len() + s.spec_bytes().len() > N ==> r == Err::<(), Error>(
                Error::OutOfBounds,
            ) && final(self)@ == old(self)@,
    {
        let len = self.vec.len();
        self.insert_str(len, s)
    }

    /// Places the bytes of `s` at byte `index`, which must start a character (or end the
    /// string), where they fit.
    pub fn insert_str(&mut self, index: usize, s: &str) -> (r: Result<(), Error>)
        requires
            old(self).well_formed(),
        ensures
            final(self).well_formed(),
            index > old(self)@.len() ==> r == Err::<(), Error>(Error::OutOfBounds) && final(self)@ == old(self)@,
            index <= old(self)@.len() && !is_char_boundary(old(self)@, index as int) ==> r
                == Err::<(), Error>(Error::NotCharBoundary) && final(self)@ == old(self)@,
            index <= old(self)@.len() && is_char_boundary(old(self)@, index as int) ==> {
                &&& old(self)@.len() + s.spec_bytes().len() > N ==> r == Err::<(), Error>(
                    Error::OutOfBounds,
                ) && final(self)@ == old(self)@
                &&& old(self)@.len() + s.spec_bytes().len() <= N ==> r is Ok && final(self)@
                    == old(self)@.subrange(0, index as int) + s.spec_bytes() + old(self)@.subrange(index as int, old(self)@.len() as int)
            },
    {
        proof {
            is_char_boundary_start_end_of_seq(self@);
        }
        match self.check_index(index) {
            Err(e) => Err(e),
            Ok(()) => {
                let bytes = s.as_bytes();
                if bytes.len() > N - self.vec.len() {
                    Err(Error::OutOfBounds)
                } else {
                    let ghost pre = self@;
                    proof {
                        assert(valid_utf8(pre.subrange(0, index as int)));
                        assert(valid_utf8(pre.subrange(index as int, pre.len() as int)));
                        assert(valid_utf8(bytes@));
                    }
                    self.insert_bytes(index, bytes);
                    proof {
                        valid_utf8_concat(pre.subrange(0, index as int), bytes@);
                        valid_utf8_concat(
                            pre.subrange(0, index as int) + bytes@,
                            pre.subrange(index as int, pre.len() as int),
                        );
                    }
                    Ok(())
                }
            },
        }
    }

    /// Appends the character `c`, where its encoding fits.
    pub fn push(&mut self, c: char) -> (r: Result<(), Error>)
        requires
            old(self).well_formed(),
        ensures
            final(self).well_formed(),
            old(self)@.len() + encode_utf8(seq![c]).len() <= N ==> r is Ok && final(self)@ == old(self)@ + encode_utf8(seq![c]),
            old(self)@.len() + encode_utf8(seq![c]).len() > N ==> r == Err::<(), Error>(
                Error::OutOfBounds,
            ) && final(self)@ == old(self)@,
    {
        let t = char_to_string(c);
        self.push_str(t.as_str())
    }

    /// Places the character `c` at byte `index`, which must start a character (or end the
    /// string), where its encoding fits.
    pub fn insert(&mut self, index: usize, c: char) -> (r: Result<(), Error>)
        requires
            old(self).well_formed(),
        ensures
            final(self).well_formed(),
            index > old(self)@.len() ==> r == Err::<(), Error>(Error::OutOfBounds) && final(self)@ == old(self)@,
            index <= old(self)@.len() && !is_char_boundary(old(self)@, index as int) ==> r
                == Err::<(), Error>(Error::NotCharBoundary) && final(self)@ == old(self)@,
            index <= old(self)@.len() && is_char_boundary(old(self)@, index as int) ==> {
                &&& old(self)@.len() + encode_utf8(seq![c]).len() > N ==> r == Err::<(), Error>(
                    Error::OutOfBounds,
                ) && final(self)@ == old(self)@
                &&& old(self)@.len() + encode_utf8(seq![c]).len() <= N ==> r is Ok && final(self)@ == old(self)@.subrange(0, index as int) + encode_utf8(seq![c]) + old(self)@.subrange(index as int, old(self)@.len() as int)
            },
    {
        let t = char_to_string(c);
        self.insert_str(index, t.as_str())
    }

    /// Removes and returns the character that starts at byte `index`.
    pub fn remove(&mut self, index: usize) -> (r: Result<char, Error>)
        requires
            old(self).well_formed(),
        ensures
            final(self).well_formed(),
            index >= old(self)@.len() ==> r == Err::<char, Error>(Error::OutOfBounds) && final(self)@ == old(self)@,
            index < old(self)@.len() && !is_char_boundary(old(self)@, index as int) ==> r
                == Err::<char, Error>(Error::NotCharBoundary) && final(self)@ == old(self)@,
            index < old(self)@.len() && is_char_boundary(old(self)@, index as int) ==> r == Ok::<
                char,
                Error,
            >(char_at(old(self)@, index as int)) && final(self)@ == old(self)@.subrange(
                0,
                index as int,
            ) + old(self)@.subrange(
                index + char_width_at(old(self)@, index as int),
                old(self)@.len() as int,
            ),
    {
        let len = self.vec.len();
        if index >= len {
            return Err(Error::OutOfBounds);
        }
        match self.check_index(index) {
            Err(e) => Err(e),
            Ok(()) => {
                let ghost pre = self@;
                let ghost suffix = pre.subrange(index as int, len as int);
                let bytes = self.vec.as_slice();
                let lead = bytes[index];
                proof {
                    assert(valid_utf8(pre.subrange(0, index as int)));
                    assert(valid_utf8(suffix));
                    assert(suffix[0] == lead);
                    is_char_boundary_iff_not_is_continuation_byte(pre, index as int);
                }
                let width: usize = if lead < 0x80 {
                    1
                } else if lead < 0xe0 {
                    2
                } else if lead < 0xf0 {
                    3
                } else {
                    4
                };
                assert(width == length_of_first_scalar(suffix));
                let c = match str_from_utf8(&bytes[index..len]) {
                    Ok(s) => {
                        assert(s@.len() > 0);
                        s.get_char(0)
                    },
                    Err(_) => {
                        assert(false);
                        ' '
                    },
                };
                self.remove_bytes(index, width);
                proof {
                    assert(pop_first_scalar(suffix) =~= pre.subrange(
                        index + width,
                        pre.len() as int,
                    ));
                    valid_utf8_concat(
                        pre.subrange(0, index as int),
                        pre.subrange(index + width, pre.len() as int),
                    );
                }
                Ok(c)
            },
        }
    }

    /// The part of the string between bytes `start` and `end`, which must each start a
    /// character (or end the string).
    pub fn substring(&self, start: usize, end: usize) -> (r: Result<&str, Error>)
        requires
            self.well_formed(),
        ensures
            start > end || end > self@.len() ==> r == Err::<&str, Error>(Error::OutOfBounds),
            start <= end <= self@.len() && !(is_char_boundary(self@, start as int)
                && is_char_boundary(self@, end as int)) ==> r == Err::<&str, Error>(
                Error::NotCharBoundary,
            ),
            start <= end <= self@.len() && is_char_boundary(self@, start as int)
                && is_char_boundary(self@, end as int) ==> (r matches Ok(s) && s.spec_bytes()
                == self@.subrange(start as int, end as int)),
    {
        if start > end {
            return Err(Error::OutOfBounds);
        }
        match self.check_index(end) {
            Err(e) => Err(e),
            Ok(()) => match self.check_index(start) {
                Err(e) => Err(e),
                Ok(()) => {
                    let bytes = self.vec.as_slice();
                    proof {
                        lemma_valid_between(self@, start as int, end as int);
                    }
                    match str_from_utf8(&bytes[start..end]) {
                        Ok(s) => Ok(s),
                        Err(_) => {
                            assert(false);
                            Err(Error::OutOfBounds)
                        },
                    }
                },
            },
        }
    }
}

} // verus!
