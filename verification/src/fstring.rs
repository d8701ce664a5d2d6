//! The string specialization: a buffer of bytes that carries its text with a
//! single trailing terminator byte.
//!
//! A `ForeignString` stores `printable_length` text bytes followed by exactly
//! one terminator, so the storage length is always `printable_length + 1`.
//! Conversion from a host string rejects text with an interior terminator
//! byte (it would be ambiguous with end-of-string), and conversion back to a
//! host string rejects stored bytes that are not valid host-string encoding.
use crate::buffer::GrowableBuffer;
use vstd::prelude::*;
use vstd::string::StrSliceExecFns;
use vstd::string::StringSliceAdditionalSpecFns;
use vstd::utf8::{decode_utf8, valid_utf8};

verus! {

/// The byte that ends every stored string: never valid inside the text.
pub const TERMINATOR: u8 = 0;

/// A typed failure at the conversion boundary between host strings and
/// foreign strings.
#[derive(Clone, Copy, Debug, PartialEq, Eq, Structural)]
pub enum ValidationError {
    /// The host string contains a terminator byte before its end, which
    /// would be ambiguous with end-of-string.
    InteriorTerminator,
    /// The stored bytes are not valid host-string encoding.
    InvalidEncoding,
}

/// A buffer of bytes holding `printable_length` text bytes followed by
/// exactly one terminator byte.
#[derive(Debug)]
pub struct ForeignString {
    buf: GrowableBuffer<u8>,
    printable_len: usize,
}

impl View for ForeignString {
    type V = Seq<u8>;

    closed spec fn view(&self) -> Seq<u8> {
        self.buf@
    }
}

impl ForeignString {
    /// Number of text bytes, excluding the terminator.
    pub closed spec fn spec_printable_len(&self) -> usize {
        self.printable_len
    }

    /// The text bytes: everything before the terminator.
    pub open spec fn printable_bytes(&self) -> Seq<u8> {
        self@.take(self.spec_printable_len() as int)
    }

    /// Well-formedness of the backing byte buffer.
    pub closed spec fn backing_wf(&self) -> bool {
        self.buf.wf()
    }

    /// Representation invariant: the storage holds the text bytes plus
    /// exactly one trailing terminator.
    pub open spec fn wf(&self) -> bool {
        &&& self.backing_wf()
        &&& self@.len() == self.spec_printable_len() + 1
        &&& self@[self.spec_printable_len() as int] == TERMINATOR
    }

    /// True when no terminator byte appears among the text bytes. Strings
    /// converted from a host string always satisfy this; a buffer allocated
    /// for in-place filling satisfies it only once it has been filled.
    pub open spec fn strictly_valid(&self) -> bool {
        forall|i: int| 0 <= i < self.spec_printable_len() ==> self@[i] != TERMINATOR
    }

    /// Converts a host string: copies its bytes and appends exactly one
    /// terminator. Fails, and changes nothing, when the host string
    /// contains an interior terminator byte.
    pub fn from_host_string(s: &str) -> (r: Result<ForeignString, ValidationError>)
        ensures
            r is Ok <==> !s.spec_bytes().contains(TERMINATOR),
            r matches Ok(f) ==> {
                &&& f.wf()
                &&& f.strictly_valid()
                &&& f.spec_printable_len() == s.spec_bytes().len()
                &&& f.printable_bytes() == s.spec_bytes()
            },
            r is Err ==> r == Err::<ForeignString, ValidationError>(
                ValidationError::InteriorTerminator,
            ),
    {
        let mut bytes = s.as_bytes_vec();
        let count = bytes.len();
        let mut i: usize = 0;
        while i < count
            invariant
                i <= count,
                count == bytes@.len(),
                bytes@ == s.spec_bytes(),
                forall|j: int| 0 <= j < i ==> bytes@[j] != TERMINATOR,
            decreases count - i,
        {
            if bytes[i] == TERMINATOR {
                proof {
                    assert(s.spec_bytes().contains(TERMINATOR)) by {
                        assert(s.spec_bytes()[i as int] == TERMINATOR);
                    }
                }
                return Err(ValidationError::InteriorTerminator);
            }
            i = i + 1;
        }
        bytes.push(TERMINATOR);
        let buf = GrowableBuffer::capture_from(bytes);
        let result = ForeignString { buf, printable_len: count };
        proof {
            assert(result.printable_bytes() =~= s.spec_bytes());
        }
        Ok(result)
    }

    /// Allocates `length` zero-valued text bytes plus one terminator, for
    /// in-place fill-before-read use.
    pub fn allocate_fixed(length: usize) -> (r: ForeignString)
        requires
            length < usize::MAX,
        ensures
            r.wf(),
            r.spec_printable_len() == length,
            r@.len() == length + 1,
            forall|i: int| 0 <= i < length + 1 ==> r@[i] == 0u8,
    {
        let mut storage: Vec<u8> = Vec::new();
        let mut i: usize = 0;
        while i < length
            invariant
                i <= length,
                storage@.len() == i,
                forall|j: int| 0 <= j < i ==> storage@[j] == 0u8,
            decreases length - i,
        {
            storage.push(0);
            i = i + 1;
        }
        storage.push(TERMINATOR);
        ForeignString { buf: GrowableBuffer::capture_from(storage), printable_len: length }
    }

    /// Number of text bytes, excluding the terminator.
    pub fn printable_length(&self) -> (r: usize)
        ensures
            r == self.spec_printable_len(),
    {
        self.printable_len
    }

    /// Number of stored bytes, including the terminator.
    pub fn storage_length(&self) -> (r: usize)
        ensures
            r == self@.len(),
    {
        self.buf.len()
    }

    /// The stored byte at index `i`.
    pub fn byte_at(&self, i: usize) -> (r: u8)
        requires
            i < self@.len(),
        ensures
            r == self@[i as int],
    {
        *self.buf.get(i)
    }

    /// Overwrites one text byte, for in-place filling after
    /// [`ForeignString::allocate_fixed`]. The terminator cannot be
    /// overwritten.
    pub fn set_byte(&mut self, i: usize, value: u8)
        requires
            old(self).wf(),
            i < old(self).spec_printable_len(),
        ensures
            final(self).wf(),
            final(self)@ == old(self)@.update(i as int, value),
            final(self).spec_printable_len() == old(self).spec_printable_len(),
    {
        self.buf.set(i, value);
    }

    /// Display text built from exactly the text bytes — the terminator and
    /// any capacity slack are ignored. Each byte renders as the character
    /// with its code, so rendering never fails.
    pub fn render(&self) -> (r: String)
        requires
            self.wf(),
        ensures
            r@.len() == self.spec_printable_len(),
            forall|i: int| 0 <= i < self.spec_printable_len() ==> r@[i] == self@[i] as char,
    {
        let mut out = String::new();
        let count = self.printable_len;
        let mut i: usize = 0;
        while i < count
            invariant
                i <= count,
                self.wf(),
                count == self.spec_printable_len(),
                out@.len() == i,
                forall|j: int| 0 <= j < i ==> out@[j] == self@[j] as char,
            decreases count - i,
        {
            let byte = *self.buf.get(i);
            push_char(&mut out, byte as char);
            i = i + 1;
        }
        out
    }

    /// Releases the stored bytes, text and terminator together, consuming
    /// the string.
    pub fn into_storage(self) -> (r: Vec<u8>)
        ensures
            r@ == self@,
    {
        self.buf.release_to_host()
    }

    /// Adopts raw storage as a foreign string: the text runs up to the first
    /// terminator byte, and anything after that byte is slack that is
    /// dropped. Fails, returning nothing, when no terminator is present.
    pub fn from_storage(bytes: Vec<u8>) -> (r: Option<ForeignString>)
        ensures
            r is Some <==> bytes@.contains(TERMINATOR),
            r matches Some(f) ==> {
                &&& f.wf()
                &&& f.strictly_valid()
                &&& f.spec_printable_len() < bytes@.len()
                &&& f@ == bytes@.take(f.spec_printable_len() + 1)
                &&& bytes@[f.spec_printable_len() as int] == TERMINATOR
                &&& forall|i: int| 0 <= i < f.spec_printable_len() ==> bytes@[i] != TERMINATOR
            },
    {
        let mut storage = bytes;
        let count = storage.len();
        let mut i: usize = 0;
        while i < count
            invariant
                i <= count,
                count == storage@.len(),
                storage@ == bytes@,
                forall|j: int| 0 <= j < i ==> storage@[j] != TERMINATOR,
            decreases count - i,
        {
            if storage[i] == TERMINATOR {
                proof {
                    assert(bytes@.contains(TERMINATOR)) by {
                        assert(bytes@[i as int] == TERMINATOR);
                    }
                }
                storage.truncate(i + 1);
                let buf = GrowableBuffer::capture_from(storage);
                let result = ForeignString { buf, printable_len: i };
                proof {
                    assert(result@ =~= bytes@.take(i + 1));
                }
                return Some(result);
            }
            i = i + 1;
        }
        None
    }

    /// Converts back to a host string, consuming the buffer: ownership of
    /// the text moves out and the struct is gone, so it can never also be
    /// freed. Fails when the text bytes (terminator stripped) are not valid
    /// host-string encoding.
    pub fn to_host_string(self) -> (r: Result<String, ValidationError>)
        requires
            self.wf(),
        ensures
            r is Ok <==> valid_utf8(self.printable_bytes()),
            r matches Ok(s) ==> s@ == decode_utf8(self.printable_bytes()),
            r is Err ==> r == Err::<String, ValidationError>(ValidationError::InvalidEncoding),
    {
        let mut bytes = self.buf.release_to_host();
        let _ = bytes.pop();
        proof {
            assert(bytes@ =~= self.printable_bytes());
        }
        match decode_host_string(bytes) {
            Some(s) => Ok(s),
            None => Err(ValidationError::InvalidEncoding),
        }
    }
}

/// Relies on `String::from_utf8`: it returns the decoded string exactly when
/// the bytes are valid UTF-8, and rejects them otherwise.
#[verifier::external_body]
fn decode_host_string(bytes: Vec<u8>) -> (r: Option<String>)
    ensures
        r is Some <==> valid_utf8(bytes@),
        r matches Some(s) ==> s@ == decode_utf8(bytes@),
{
    String::from_utf8(bytes).ok()
}

/// Relies on `String::push`: it appends the given character to the end of
/// the string.
#[verifier::external_body]
fn push_char(s: &mut String, c: char)
    ensures
        final(s)@ == old(s)@.push(c),
{
    s.push(c);
}

} // verus!
