//! The file itself: its five regions, how they are read and changed, and how a file is
//! written as bytes.

use vstd::prelude::*;
use vstd::utf8::{encode_utf8, encode_utf8_decode_utf8};
use crate::checksum::{checksum_of, compute_checksum};
use crate::comment::{comment_length, is_zero_terminated, padded, string_from_utf8, text};
use crate::comment::{terminator_position, trailing_spaces, with_text, zero_terminated};
use crate::comment::{lemma_first_zero_from, lemma_terminator_at};
use crate::comment::{lemma_terminator_iff_zero, lemma_trailing_spaces_are};
use crate::error::DecodeError;
use crate::layout::{read_u16_le, u16_from_le, u16_to_le, write_u16_le};
use crate::layout::{CHECKSUM_SIZE, COMMENT_SIZE, HEADER_SIZE, SIGNATURE, SIGNATURE_SIZE};
use crate::layout::{MAX_VARIABLE_LENGTH, SPACE, VARIABLE_LENGTH_SIZE};
use crate::payload::{Payload, Variable};

verus! {

/// A file as plain values: the bytes of its signature and of its comment, the length that
/// its header declares, the bytes of its variable, and the checksum that it stores.
pub struct FileView {
    pub signature: Seq<u8>,
    pub comment: Seq<u8>,
    pub variable_length: u16,
    pub variable: Seq<u8>,
    pub checksum: u16,
}

impl FileView {
    /// The declared length is the length of the variable.
    pub open spec fn length_matches(self) -> bool {
        self.variable_length == self.variable.len()
    }

    /// The stored checksum is the checksum of the variable.
    pub open spec fn checksum_matches(self) -> bool {
        self.checksum == checksum_of(self.variable)
    }

    /// The file is one that the calculator takes: it has the signature, and its length and
    /// checksum are those of its variable.
    pub open spec fn is_consistent(self) -> bool {
        &&& self.signature == SIGNATURE@
        &&& self.length_matches()
        &&& self.checksum_matches()
    }

    /// The size in bytes that the header gives the file: the header, the declared length of
    /// the variable, and the checksum.
    pub open spec fn size(self) -> nat {
        (HEADER_SIZE + self.variable_length + CHECKSUM_SIZE) as nat
    }

    /// The file written as bytes: signature, comment, the length of the variable, the
    /// variable, and its checksum. Length and checksum are taken from the variable, not from
    /// what the file stores.
    pub open spec fn encoded(self) -> Seq<u8>
        recommends
            self.variable.len() <= MAX_VARIABLE_LENGTH,
    {
        self.signature + self.comment + u16_to_le(self.variable.len() as u16) + self.variable
            + u16_to_le(checksum_of(self.variable))
    }
}

/// A file exported from a calculator.
///
/// A file wraps one variable. Before it stand a signature, which marks the data as made for
/// the calculator, a comment, and the length of the variable; after it stands a checksum.
pub struct File<T: Payload> {
    signature: [u8; SIGNATURE_SIZE],
    comment: [u8; COMMENT_SIZE],
    variable_length: [u8; VARIABLE_LENGTH_SIZE],
    variable: Variable<T>,
    checksum: [u8; CHECKSUM_SIZE],
}

impl<T: Payload> View for File<T> {
    type V = FileView;

    open spec fn view(&self) -> FileView {
        FileView {
            signature: self.signature()@,
            comment: self.comment_raw()@,
            variable_length: u16_from_le(
                self.variable_length_raw()@[0],
                self.variable_length_raw()@[1],
            ),
            variable: self.variable()@,
            checksum: u16_from_le(self.checksum_raw()@[0], self.checksum_raw()@[1]),
        }
    }
}

/// Appends `part` to `out`.
fn append(out: &mut Vec<u8>, part: &[u8])
    ensures
        final(out)@ == old(out)@ + part@,
{
    out.extend_from_slice(part);
}

impl<T: Payload> File<T> {
    /// Where the signature begins.
    pub const SIGNATURE_OFFSET: usize = 0x00;

    /// The size in bytes of the signature.
    pub const SIGNATURE_SIZE: usize = SIGNATURE_SIZE;

    /// Where the comment region begins.
    pub const COMMENT_OFFSET: usize = Self::SIGNATURE_OFFSET + Self::SIGNATURE_SIZE;

    /// The size in bytes of the comment region.
    pub const COMMENT_SIZE: usize = COMMENT_SIZE;

    /// Where the field that holds the length of the variable begins.
    pub const VARIABLE_LENGTH_OFFSET: usize = Self::COMMENT_OFFSET + Self::COMMENT_SIZE;

    /// The size in bytes of the field that holds the length of the variable.
    pub const VARIABLE_LENGTH_SIZE: usize = VARIABLE_LENGTH_SIZE;

    /// The size in bytes of all that precedes the variable.
    pub const HEADER_SIZE: usize = Self::SIGNATURE_SIZE + Self::COMMENT_SIZE
        + Self::VARIABLE_LENGTH_SIZE;

    /// Where the variable begins.
    pub const VARIABLE_OFFSET: usize = Self::VARIABLE_LENGTH_OFFSET + Self::VARIABLE_LENGTH_SIZE;

    /// The size in bytes of the checksum.
    pub const CHECKSUM_SIZE: usize = CHECKSUM_SIZE;

    /// The signature as stored.
    pub closed spec fn spec_signature(&self) -> &[u8; SIGNATURE_SIZE] {
        &self.signature
    }

    /// The comment region as stored.
    pub closed spec fn spec_comment_raw(&self) -> &[u8; COMMENT_SIZE] {
        &self.comment
    }

    /// The length field as stored.
    pub closed spec fn spec_variable_length_raw(&self) -> &[u8; VARIABLE_LENGTH_SIZE] {
        &self.variable_length
    }

    /// The variable that the file wraps.
    pub closed spec fn spec_variable(&self) -> &Variable<T> {
        &self.variable
    }

    /// The checksum field as stored.
    pub closed spec fn spec_checksum_raw(&self) -> &[u8; CHECKSUM_SIZE] {
        &self.checksum
    }

    /// Makes a file for `variable`: with the signature, an empty comment, and the length and
    /// checksum of the variable.
    pub fn new(variable: Variable<T>) -> (file: Self)
        ensures
            *file.variable() == variable,
            file@ == (FileView {
                signature: SIGNATURE@,
                comment: Seq::new(COMMENT_SIZE as nat, |i: int| 0u8),
                variable_length: variable@.len() as u16,
                variable: variable@,
                checksum: checksum_of(variable@),
            }),
            file@.is_consistent(),
    {
        let payload: Vec<u8> = variable.bytes();
        let variable_length: [u8; 2] = write_u16_le(payload.len() as u16);
        let checksum: [u8; 2] = write_u16_le(compute_checksum(payload.as_slice()));
        let file = File {
            signature: SIGNATURE,
            comment: [0u8; COMMENT_SIZE],
            variable_length,
            variable,
            checksum,
        };
        assert(file.comment@ =~= Seq::new(COMMENT_SIZE as nat, |i: int| 0u8));
        file
    }

    /// Makes a file from its five regions as they are given. Nothing is checked: the length
    /// and the checksum need not be those of the variable, nor the signature the one that
    /// the calculator asks for.
    pub fn from_raw_parts(
        signature: [u8; SIGNATURE_SIZE],
        comment: [u8; COMMENT_SIZE],
        variable_length: u16,
        variable: Variable<T>,
        checksum: u16,
    ) -> (file: Self)
        ensures
            *file.variable() == variable,
            file@ == (FileView {
                signature: signature@,
                comment: comment@,
                variable_length,
                variable: variable@,
                checksum,
            }),
    {
        File {
            signature,
            comment,
            variable_length: write_u16_le(variable_length),
            variable,
            checksum: write_u16_le(checksum),
        }
    }

    /// Gets the size in bytes of the file.
    ///
    /// This is the size of the header ([`File::HEADER_SIZE`]) plus the size of the variable
    /// ([`File::variable_length`]) plus the size of the checksum ([`File::CHECKSUM_SIZE`]).
    pub fn size(&self) -> (size: usize)
        ensures
            size == self@.size(),
    {
        Self::SIGNATURE_SIZE + Self::COMMENT_SIZE + Self::VARIABLE_LENGTH_SIZE
            + self.variable_length() as usize + Self::CHECKSUM_SIZE
    }

    /// Gets the whole file as bytes, header and checksum included.
    ///
    /// The length and the checksum that are written are computed from the variable as it is
    /// now; the stored fields are not consulted.
    pub fn bytes(&self) -> (out: Vec<u8>)
        ensures
            out@ == self@.encoded(),
            out@.len() == HEADER_SIZE + self@.variable.len() + CHECKSUM_SIZE,
            self@.length_matches() ==> out@.len() == self@.size(),
    {
        let payload: Vec<u8> = self.variable.bytes();
        let variable_length: [u8; 2] = write_u16_le(payload.len() as u16);
        let checksum: [u8; 2] = write_u16_le(compute_checksum(payload.as_slice()));
        let mut out: Vec<u8> = Vec::with_capacity(HEADER_SIZE + payload.len() + CHECKSUM_SIZE);
        append(&mut out, self.signature.as_slice());
        append(&mut out, self.comment.as_slice());
        append(&mut out, variable_length.as_slice());
        append(&mut out, payload.as_slice());
        append(&mut out, checksum.as_slice());
        out
    }

    /// Gets the signature, which marks the data as usable on the calculator.
    ///
    /// For such data this is always `**TI83F*` followed by the bytes `0x1A`, `0x0A` and
    /// `0x00`.
    #[verifier::when_used_as_spec(spec_signature)]
    pub fn signature(&self) -> (signature: &[u8; SIGNATURE_SIZE])
        ensures
            signature == self.spec_signature(),
    {
        &self.signature
    }

    /// Gets the signature for mutation.
    ///
    /// This goes past every check: a file whose signature is changed to anything but
    /// [`SIGNATURE`] is no longer taken by the calculator.
    pub fn signature_mut(&mut self) -> (signature: &mut [u8; SIGNATURE_SIZE])
        ensures
            *signature == *old(self).signature(),
            final(self)@ == (FileView { signature: final(signature)@, ..old(self)@ }),
            final(self).variable() == old(self).variable(),
    {
        &mut self.signature
    }

    fn comment_null_terminator_position(&self) -> (found: Option<usize>)
        ensures
            match found {
                Some(position) => {
                    &&& position < COMMENT_SIZE
                    &&& terminator_position(self@.comment) == Some(position as int)
                },
                None => terminator_position(self@.comment) is None,
            },
    {
        let mut i: usize = 0;
        while i < COMMENT_SIZE
            invariant
                i <= COMMENT_SIZE,
                forall|j: int| 0 <= j < i ==> self.comment@[j] != 0,
            decreases COMMENT_SIZE - i,
        {
            if self.comment[i] == 0 {
                proof {
                    lemma_terminator_at(self.comment@, i as int);
                }
                return Some(i);
            }
            i += 1;
        }
        proof {
            lemma_first_zero_from(self.comment@, 0);
        }
        None
    }

    fn comment_ending_spaces(&self) -> (count: usize)
        ensures
            count == trailing_spaces(self@.comment),
            count <= COMMENT_SIZE,
    {
        let mut count: usize = 0;
        while count < COMMENT_SIZE && self.comment[COMMENT_SIZE - 1 - count] == SPACE
            invariant
                count <= COMMENT_SIZE,
                forall|j: int| COMMENT_SIZE - count <= j < COMMENT_SIZE ==> self.comment@[j] == SPACE,
            decreases COMMENT_SIZE - count,
        {
            count += 1;
        }
        proof {
            lemma_trailing_spaces_are(self.comment@, count as int);
        }
        count
    }

    /// Gets the comment as text.
    ///
    /// The comment ends at the first zero byte of its region. Where the region holds none,
    /// the comment fills it, and with `trim` set the spaces that pad it at the end are left
    /// out. Other programs may have written a comment that is not UTF-8: then this fails.
    ///
    /// Use [`File::comment_raw`] to get the bytes.
    pub fn comment(&self, trim: bool) -> (comment: Result<String, DecodeError>)
        ensures
            match comment {
                Ok(s) => text(self@.comment, trim) == Ok::<Seq<char>, DecodeError>(s@),
                Err(e) => text(self@.comment, trim) == Err::<Seq<char>, DecodeError>(e),
            },
    {
        let end: usize = match self.comment_null_terminator_position() {
            Some(position) => position,
            None => if trim {
                COMMENT_SIZE - self.comment_ending_spaces()
            } else {
                COMMENT_SIZE
            },
        };
        let mut bytes: Vec<u8> = Vec::with_capacity(end);
        let mut i: usize = 0;
        while i < end
            invariant
                i <= end <= COMMENT_SIZE,
                bytes@ == self.comment@.take(i as int),
            decreases end - i,
        {
            bytes.push(self.comment[i]);
            i += 1;
        }
        assert(self.comment@.take(COMMENT_SIZE as int) =~= self.comment@);
        match string_from_utf8(bytes) {
            Some(s) => {
                proof {
                    encode_utf8_decode_utf8(s@);
                }
                Ok(s)
            },
            None => Err(DecodeError::InvalidCommentEncoding),
        }
    }

    /// Gets the size in bytes of the comment, with neither the zero byte that ends it nor
    /// the spaces that pad it.
    pub fn comment_length(&self) -> (length: usize)
        ensures
            length == comment_length(self@.comment),
    {
        match self.comment_null_terminator_position() {
            Some(position) => position,
            None => COMMENT_SIZE - self.comment_ending_spaces(),
        }
    }

    /// Gets whether the comment is zero-terminated (`true`) or padded (`false`).
    ///
    /// A comment that fills its whole region ([`File::COMMENT_SIZE`]) is not zero-terminated.
    pub fn is_comment_zero_terminated(&self) -> (terminated: bool)
        ensures
            terminated == is_zero_terminated(self@.comment),
    {
        proof {
            lemma_terminator_iff_zero(self.comment@);
        }
        self.comment_null_terminator_position().is_some()
    }

    /// Makes the comment zero-terminated.
    ///
    /// Where the comment is padded with spaces, the first of them becomes the zero byte.
    /// Where it fills its region there is no room for a zero byte, and nothing changes.
    pub fn make_comment_zero_terminated(&mut self)
        ensures
            final(self)@ == (FileView {
                comment: zero_terminated(old(self)@.comment),
                ..old(self)@
            }),
            final(self).variable() == old(self).variable(),
    {
        if self.is_comment_zero_terminated() {
            return ;
        }
        let ending_spaces: usize = self.comment_ending_spaces();
        if ending_spaces == 0 {
            return ;
        }
        let first_space_index: usize = COMMENT_SIZE - ending_spaces;
        self.comment[first_space_index] = 0;
    }

    /// Makes the comment end in padding.
    ///
    /// Where the comment is zero-terminated, the zero byte and all that follows it become
    /// spaces.
    pub fn make_comment_padded(&mut self)
        ensures
            final(self)@ == (FileView { comment: padded(old(self)@.comment), ..old(self)@ }),
            final(self).variable() == old(self).variable(),
    {
        let pad_start: usize = match self.comment_null_terminator_position() {
            Some(position) => position,
            None => {
                return ;
            },
        };
        let mut region: [u8; COMMENT_SIZE] = self.comment;
        let mut i: usize = pad_start;
        while i < COMMENT_SIZE
            invariant
                pad_start <= i <= COMMENT_SIZE,
                forall|j: int| 0 <= j < pad_start ==> region@[j] == self.comment@[j],
                forall|j: int| pad_start <= j < i ==> region@[j] == SPACE,
            decreases COMMENT_SIZE - i,
        {
            region[i] = SPACE;
            i += 1;
        }
        assert(region@ =~= padded(self.comment@));
        self.comment = region;
    }

    /// Stores text in the comment region.
    ///
    /// As many bytes of the text are taken as fit the region ([`File::COMMENT_SIZE`]). Where
    /// room is left, a zero byte follows the text if `zero_terminated` is set, and what
    /// stands behind it stays; else spaces fill the region up.
    pub fn set_comment(&mut self, comment: &str, zero_terminated: bool)
        ensures
            final(self)@ == (FileView {
                comment: with_text(old(self)@.comment, encode_utf8(comment@), zero_terminated),
                ..old(self)@
            }),
            final(self).variable() == old(self).variable(),
    {
        let text: &[u8] = comment.as_bytes();
        let taken: usize = if text.len() < COMMENT_SIZE {
            text.len()
        } else {
            COMMENT_SIZE
        };
        let mut region: [u8; COMMENT_SIZE] = self.comment;
        let mut i: usize = 0;
        while i < taken
            invariant
                i <= taken <= COMMENT_SIZE,
                taken <= text@.len(),
                forall|j: int| 0 <= j < i ==> region@[j] == text@[j],
                forall|j: int| i <= j < COMMENT_SIZE ==> region@[j] == self.comment@[j],
            decreases taken - i,
        {
            region[i] = text[i];
            i += 1;
        }
        if zero_terminated {
            if taken < COMMENT_SIZE {
                region[taken] = 0;
            }
        } else {
            while i < COMMENT_SIZE
                invariant
                    taken <= i <= COMMENT_SIZE,
                    forall|j: int| 0 <= j < taken ==> region@[j] == text@[j],
                    forall|j: int| taken <= j < i ==> region@[j] == SPACE,
                decreases COMMENT_SIZE - i,
            {
                region[i] = SPACE;
                i += 1;
            }
        }
        assert(region@ =~= with_text(self.comment@, text@, zero_terminated));
        self.comment = region;
    }

    /// Gets the bytes of the comment region.
    ///
    /// The comment in it is either zero-terminated or padded with spaces.
    #[verifier::when_used_as_spec(spec_comment_raw)]
    pub fn comment_raw(&self) -> (comment: &[u8; COMMENT_SIZE])
        ensures
            comment == self.spec_comment_raw(),
    {
        &self.comment
    }

    /// Gets the bytes of the comment region for mutation.
    ///
    /// The comment may hold anything; the calculator never reads it.
    pub fn comment_raw_mut(&mut self) -> (comment: &mut [u8; COMMENT_SIZE])
        ensures
            *comment == *old(self).comment_raw(),
            final(self)@ == (FileView { comment: final(comment)@, ..old(self)@ }),
            final(self).variable() == old(self).variable(),
    {
        &mut self.comment
    }

    /// Gets the size in bytes of the variable as the header declares it.
    pub fn variable_length(&self) -> (length: u16)
        ensures
            length == self@.variable_length,
    {
        read_u16_le(&self.variable_length)
    }

    /// Gets the bytes of the field that holds the size of the variable.
    ///
    /// The size is stored as a little-endian integer.
    #[verifier::when_used_as_spec(spec_variable_length_raw)]
    pub fn variable_length_raw(&self) -> (raw: &[u8; VARIABLE_LENGTH_SIZE])
        ensures
            raw == self.spec_variable_length_raw(),
    {
        &self.variable_length
    }

    /// Gets the bytes of the field that holds the size of the variable for mutation.
    ///
    /// This goes past every check: the bytes ought to be the size in bytes of the variable
    /// as a little-endian integer, and nothing sees to it that they stay so.
    pub fn variable_length_raw_mut(&mut self) -> (raw: &mut [u8; VARIABLE_LENGTH_SIZE])
        ensures
            *raw == *old(self).variable_length_raw(),
            final(self)@ == (FileView {
                variable_length: u16_from_le(final(raw)@[0], final(raw)@[1]),
                ..old(self)@
            }),
            final(self).variable() == old(self).variable(),
    {
        &mut self.variable_length
    }

    /// Gets the variable stored in the file.
    #[verifier::when_used_as_spec(spec_variable)]
    pub fn variable(&self) -> (variable: &Variable<T>)
        ensures
            variable == self.spec_variable(),
    {
        &self.variable
    }

    /// Gets the variable stored in the file for mutation.
    ///
    /// The length and the checksum that the file stores stay as they are. They are
    /// computed anew whenever the file is written as bytes, and [`File::set_variable`]
    /// changes the variable and both fields together.
    pub fn variable_mut(&mut self) -> (variable: &mut Variable<T>)
        ensures
            *variable == *old(self).variable(),
            *final(self).variable() == *final(variable),
            final(self)@ == (FileView { variable: final(variable)@, ..old(self)@ }),
    {
        &mut self.variable
    }

    /// Puts another variable in the file, and sets the length and the checksum to those of
    /// the new variable.
    pub fn set_variable(&mut self, variable: Variable<T>)
        ensures
            *final(self).variable() == variable,
            final(self)@ == (FileView {
                variable_length: variable@.len() as u16,
                variable: variable@,
                checksum: checksum_of(variable@),
                ..old(self)@
            }),
            final(self)@.length_matches(),
            final(self)@.checksum_matches(),
    {
        let payload: Vec<u8> = variable.bytes();
        self.variable_length = write_u16_le(payload.len() as u16);
        self.checksum = write_u16_le(compute_checksum(payload.as_slice()));
        self.variable = variable;
    }

    /// Gets how many bytes from the start of the file the checksum lies.
    pub fn checksum_offset(&self) -> (offset: usize)
        ensures
            offset == HEADER_SIZE + self@.variable_length,
    {
        Self::VARIABLE_OFFSET + self.variable_length() as usize
    }

    /// Gets the checksum stored at the end of the file.
    ///
    /// In a consistent file this is the lower 16 bits of the sum of the bytes of the
    /// variable.
    pub fn checksum(&self) -> (checksum: u16)
        ensures
            checksum == self@.checksum,
    {
        read_u16_le(&self.checksum)
    }

    /// Gets the bytes of the checksum at the end of the file.
    ///
    /// The checksum is stored as a little-endian integer.
    #[verifier::when_used_as_spec(spec_checksum_raw)]
    pub fn checksum_raw(&self) -> (raw: &[u8; CHECKSUM_SIZE])
        ensures
            raw == self.spec_checksum_raw(),
    {
        &self.checksum
    }

    /// Gets the bytes of the checksum at the end of the file for mutation.
    ///
    /// This goes past every check: the bytes ought to be the lower 16 bits of the sum of the
    /// bytes of the variable as a little-endian integer, and nothing sees to it that they
    /// stay so.
    pub fn checksum_raw_mut(&mut self) -> (raw: &mut [u8; CHECKSUM_SIZE])
        ensures
            *raw == *old(self).checksum_raw(),
            final(self)@ == (FileView {
                checksum: u16_from_le(final(raw)@[0], final(raw)@[1]),
                ..old(self)@
            }),
            final(self).variable() == old(self).variable(),
    {
        &mut self.checksum
    }
}

} // verus!
