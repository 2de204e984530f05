//! Reading a file from bytes, under options that say how each check reacts to data that
//! does not pass it.

use vstd::prelude::*;
use vstd::slice::slice_subrange;
use crate::checksum::{checked_checksum, validate_checksum};
use crate::error::DecodeError;
use crate::file::{File, FileView};
use crate::layout::{read_u16_le, u16_from_le, u16_to_le};
use crate::layout::{CHECKSUM_SIZE, COMMENT_SIZE, HEADER_SIZE, MAX_VARIABLE_LENGTH};
use crate::layout::{SIGNATURE, SIGNATURE_SIZE};
use crate::mode::{FileReadOptions, ReadMode, VariableReadOptions};
use crate::payload::{Payload, Real, Variable};

verus! {

/// What a reader in `mode` keeps as the signature of a file that begins with `found`, or the
/// error with which it fails.
pub open spec fn checked_signature(found: Seq<u8>, mode: ReadMode) -> Result<
    Seq<u8>,
    DecodeError,
> {
    match mode {
        ReadMode::Error => if found == SIGNATURE@ {
            Ok(found)
        } else {
            Err(DecodeError::SignatureMismatch)
        },
        ReadMode::Fix => Ok(SIGNATURE@),
        ReadMode::Ignore => Ok(found),
    }
}

/// What a reader in `mode` keeps as the length of a variable of `actual` bytes whose header
/// declares `declared`, or the error with which it fails.
pub open spec fn checked_length(declared: u16, actual: nat, mode: ReadMode) -> Result<
    u16,
    DecodeError,
> {
    match mode {
        ReadMode::Error => if actual == declared {
            Ok(declared)
        } else {
            Err(DecodeError::LengthMismatch)
        },
        ReadMode::Fix => if actual <= MAX_VARIABLE_LENGTH {
            Ok(actual as u16)
        } else {
            Err(DecodeError::LengthMismatch)
        },
        ReadMode::Ignore => Ok(declared),
    }
}

/// The error with which reading fails when the payload's deserializer refuses the variable
/// region with `error`. A reader that checks the length takes such a region as one that does
/// not hold a variable of the declared length; in the other modes the deserializer's own
/// error is passed on.
pub open spec fn refused_payload(mode: ReadMode, error: DecodeError) -> DecodeError {
    match mode {
        ReadMode::Error => DecodeError::LengthMismatch,
        _ => error,
    }
}

/// The start of a file as plain values: the signature that the reader keeps, the bytes of the
/// comment, and the length that the header declares.
pub struct HeaderView {
    pub signature: Seq<u8>,
    pub comment: Seq<u8>,
    pub declared: u16,
}

/// The length that the header of `bytes` declares for the variable.
pub open spec fn declared_length(bytes: Seq<u8>) -> u16
    recommends
        bytes.len() >= HEADER_SIZE,
{
    u16_from_le(bytes[HEADER_SIZE - 2], bytes[HEADER_SIZE - 1])
}

/// The bytes that are handed to the payload's deserializer: as many as the header declares,
/// from the end of the header on.
pub open spec fn variable_region(bytes: Seq<u8>) -> Seq<u8>
    recommends
        bytes.len() >= HEADER_SIZE + declared_length(bytes),
{
    bytes.subrange(HEADER_SIZE as int, HEADER_SIZE + declared_length(bytes))
}

/// The checksum that `bytes` store behind the variable region.
pub open spec fn stored_checksum(bytes: Seq<u8>) -> u16
    recommends
        bytes.len() >= HEADER_SIZE + declared_length(bytes) + CHECKSUM_SIZE,
{
    u16_from_le(
        bytes[HEADER_SIZE + declared_length(bytes)],
        bytes[HEADER_SIZE + declared_length(bytes) + 1],
    )
}

/// The header that reading `bytes` under `options` gives, or the error with which it fails.
///
/// The signature is read and checked first, then the comment, which is taken as it is, then
/// the length field. Reading fails with [`DecodeError::Truncated`] where the bytes end before
/// the region that is due, the variable region included.
pub open spec fn decoded_header(bytes: Seq<u8>, options: FileReadOptions) -> Result<
    HeaderView,
    DecodeError,
> {
    if bytes.len() < SIGNATURE_SIZE {
        Err(DecodeError::Truncated)
    } else {
        match checked_signature(bytes.subrange(0, SIGNATURE_SIZE as int), options.signature) {
            Err(e) => Err(e),
            Ok(signature) => if bytes.len() < HEADER_SIZE || bytes.len() < HEADER_SIZE
                + declared_length(bytes) {
                Err(DecodeError::Truncated)
            } else {
                Ok(
                    HeaderView {
                        signature,
                        comment: bytes.subrange(
                            SIGNATURE_SIZE as int,
                            SIGNATURE_SIZE + COMMENT_SIZE,
                        ),
                        declared: declared_length(bytes),
                    },
                )
            },
        }
    }
}

/// The file that reading `bytes` under `options` gives when the payload's deserializer
/// gives `variable` for the variable region, or the error with which reading fails.
///
/// After the header the length is checked against the variable that was read, then the
/// checksum is read, with [`DecodeError::Truncated`] where the bytes end before it, and
/// checked. Bytes behind the checksum are not looked at. A variable of more bytes than a
/// length field can declare is no variable of a file: it gives
/// [`DecodeError::LengthMismatch`] in every mode.
pub open spec fn decoded_with(
    bytes: Seq<u8>,
    options: FileReadOptions,
    variable: Result<Seq<u8>, DecodeError>,
) -> Result<FileView, DecodeError> {
    match decoded_header(bytes, options) {
        Err(e) => Err(e),
        Ok(header) => match variable {
            Err(e) => Err(refused_payload(options.variable_length, e)),
            Ok(variable) => match checked_length(
                header.declared,
                variable.len(),
                options.variable_length,
            ) {
                Err(e) => Err(e),
                Ok(variable_length) => if variable.len() > MAX_VARIABLE_LENGTH {
                    Err(DecodeError::LengthMismatch)
                } else if bytes.len() < HEADER_SIZE + header.declared + CHECKSUM_SIZE {
                    Err(DecodeError::Truncated)
                } else {
                    match checked_checksum(stored_checksum(bytes), variable, options.checksum) {
                        Err(e) => Err(e),
                        Ok(checksum) => Ok(
                            FileView {
                                signature: header.signature,
                                comment: header.comment,
                                variable_length,
                                variable,
                                checksum,
                            },
                        ),
                    }
                },
            },
        },
    }
}

/// The file that reading `bytes` under `options` gives, or the error with which it fails:
/// [`decoded_with`] what the deserializer of `T` makes of the variable region.
pub open spec fn decoded<T: Payload>(bytes: Seq<u8>, options: FileReadOptions) -> Result<
    FileView,
    DecodeError,
> {
    decoded_with(bytes, options, T::deserialized(variable_region(bytes), options.variable))
}

/// What a deserializer gave, as [`decoded_with`] takes it: the bytes of the payload that was
/// read, or the error.
pub open spec fn read_variable<T: Payload>(read: Result<T, DecodeError>) -> Result<
    Seq<u8>,
    DecodeError,
> {
    match read {
        Ok(payload) => Ok(payload.serialized()),
        Err(e) => Err(e),
    }
}

/// Tells whether `found` is the signature.
fn is_signature(found: &[u8; SIGNATURE_SIZE]) -> (same: bool)
    ensures
        same == (found@ == SIGNATURE@),
{
    let mut i: usize = 0;
    while i < SIGNATURE_SIZE
        invariant
            i <= SIGNATURE_SIZE,
            forall|j: int| 0 <= j < i ==> found@[j] == SIGNATURE@[j],
        decreases SIGNATURE_SIZE - i,
    {
        if found[i] != SIGNATURE[i] {
            return false;
        }
        i += 1;
    }
    assert(found@ =~= SIGNATURE@);
    true
}

/// Holds the first bytes of a file against the signature.
///
/// In [`ReadMode::Error`] bytes that differ from [`SIGNATURE`] are refused. In
/// [`ReadMode::Fix`] the signature takes their place. In [`ReadMode::Ignore`] they are kept
/// whatever they are.
pub fn validate_signature(found: &[u8; SIGNATURE_SIZE], mode: ReadMode) -> (checked: Result<
    [u8; SIGNATURE_SIZE],
    DecodeError,
>)
    ensures
        match checked {
            Ok(signature) => checked_signature(found@, mode) == Ok::<Seq<u8>, DecodeError>(
                signature@,
            ),
            Err(e) => checked_signature(found@, mode) == Err::<Seq<u8>, DecodeError>(e),
        },
{
    match mode {
        ReadMode::Error => {
            if is_signature(found) {
                Ok(*found)
            } else {
                Err(DecodeError::SignatureMismatch)
            }
        },
        ReadMode::Fix => Ok(SIGNATURE),
        ReadMode::Ignore => Ok(*found),
    }
}

/// Holds the length that a header declares against the size in bytes of the variable that
/// was read.
///
/// In [`ReadMode::Error`] a declared length that is not the size of the variable is refused.
/// In [`ReadMode::Fix`] the size of the variable takes its place, provided that the field can
/// hold it. In [`ReadMode::Ignore`] nothing is compared and the declared length is kept.
pub fn validate_length(declared: u16, actual: usize, mode: ReadMode) -> (checked: Result<
    u16,
    DecodeError,
>)
    ensures
        checked == checked_length(declared, actual as nat, mode),
{
    match mode {
        ReadMode::Error => {
            if actual == declared as usize {
                Ok(declared)
            } else {
                Err(DecodeError::LengthMismatch)
            }
        },
        ReadMode::Fix => {
            if actual <= MAX_VARIABLE_LENGTH {
                Ok(actual as u16)
            } else {
                Err(DecodeError::LengthMismatch)
            }
        },
        ReadMode::Ignore => Ok(declared),
    }
}

/// Copies the signature from the start of `bytes`.
fn read_signature(bytes: &[u8]) -> (signature: [u8; SIGNATURE_SIZE])
    requires
        bytes@.len() >= SIGNATURE_SIZE,
    ensures
        signature@ == bytes@.subrange(0, SIGNATURE_SIZE as int),
{
    let mut signature: [u8; SIGNATURE_SIZE] = [0u8; SIGNATURE_SIZE];
    let mut i: usize = 0;
    while i < SIGNATURE_SIZE
        invariant
            i <= SIGNATURE_SIZE <= bytes@.len(),
            forall|j: int| 0 <= j < i ==> signature@[j] == bytes@[j],
        decreases SIGNATURE_SIZE - i,
    {
        signature[i] = bytes[i];
        i += 1;
    }
    signature
}

/// Copies the comment region from its place in `bytes`.
fn read_comment(bytes: &[u8]) -> (comment: [u8; COMMENT_SIZE])
    requires
        bytes@.len() >= SIGNATURE_SIZE + COMMENT_SIZE,
    ensures
        comment@ == bytes@.subrange(SIGNATURE_SIZE as int, SIGNATURE_SIZE + COMMENT_SIZE),
{
    let mut comment: [u8; COMMENT_SIZE] = [0u8; COMMENT_SIZE];
    let mut i: usize = 0;
    while i < COMMENT_SIZE
        invariant
            i <= COMMENT_SIZE,
            SIGNATURE_SIZE + COMMENT_SIZE <= bytes@.len(),
            forall|j: int| 0 <= j < i ==> comment@[j] == bytes@[SIGNATURE_SIZE + j],
        decreases COMMENT_SIZE - i,
    {
        comment[i] = bytes[SIGNATURE_SIZE + i];
        i += 1;
    }
    comment
}

/// Reads the little-endian integer that lies at `offset` in `bytes`.
fn read_u16_at(bytes: &[u8], offset: usize) -> (value: u16)
    requires
        offset + 2 <= bytes@.len(),
    ensures
        value == u16_from_le(bytes@[offset as int], bytes@[offset + 1]),
{
    let raw: [u8; 2] = [bytes[offset], bytes[offset + 1]];
    read_u16_le(&raw)
}

/// The start of a file as it was read.
struct Header {
    signature: [u8; SIGNATURE_SIZE],
    comment: [u8; COMMENT_SIZE],
    declared: u16,
}

impl View for Header {
    type V = HeaderView;

    closed spec fn view(&self) -> HeaderView {
        HeaderView { signature: self.signature@, comment: self.comment@, declared: self.declared }
    }
}

/// Reads the header of a file and sees that the variable region is there.
fn read_header(bytes: &[u8], options: &FileReadOptions) -> (read: Result<Header, DecodeError>)
    ensures
        match read {
            Ok(header) => decoded_header(bytes@, *options) == Ok::<HeaderView, DecodeError>(
                header@,
            ),
            Err(e) => decoded_header(bytes@, *options) == Err::<HeaderView, DecodeError>(e),
        },
{
    if bytes.len() < SIGNATURE_SIZE {
        return Err(DecodeError::Truncated);
    }
    let found: [u8; SIGNATURE_SIZE] = read_signature(bytes);
    let signature: [u8; SIGNATURE_SIZE] = match validate_signature(&found, options.signature) {
        Ok(signature) => signature,
        Err(e) => {
            return Err(e);
        },
    };
    if bytes.len() < HEADER_SIZE {
        return Err(DecodeError::Truncated);
    }
    let comment: [u8; COMMENT_SIZE] = read_comment(bytes);
    let declared: u16 = read_u16_at(bytes, HEADER_SIZE - 2);
    if bytes.len() - HEADER_SIZE < declared as usize {
        return Err(DecodeError::Truncated);
    }
    Ok(Header { signature, comment, declared })
}

/// Checks what follows the header against the variable that was read, and puts the file
/// together.
fn finish<T: Payload>(
    bytes: &[u8],
    options: &FileReadOptions,
    header: Header,
    read: Result<T, DecodeError>,
) -> (file: Result<File<T>, DecodeError>)
    requires
        decoded_header(bytes@, *options) == Ok::<HeaderView, DecodeError>(header@),
    ensures
        match file {
            Ok(file) => {
                &&& decoded_with(bytes@, *options, read_variable(read)) == Ok::<
                    FileView,
                    DecodeError,
                >(file@)
                &&& read matches Ok(payload) && *file.variable().payload() == payload
            },
            Err(e) => decoded_with(bytes@, *options, read_variable(read)) == Err::<
                FileView,
                DecodeError,
            >(e),
        },
{
    let payload: T = match read {
        Ok(payload) => payload,
        Err(e) => {
            return Err(
                match options.variable_length {
                    ReadMode::Error => DecodeError::LengthMismatch,
                    _ => e,
                },
            );
        },
    };
    let (variable, serialized): (Variable<T>, Vec<u8>) = match Variable::with_bytes(payload) {
        Ok(made) => made,
        Err(_) => {
            return Err(DecodeError::LengthMismatch);
        },
    };
    let variable_length: u16 = match validate_length(
        header.declared,
        serialized.len(),
        options.variable_length,
    ) {
        Ok(variable_length) => variable_length,
        Err(e) => {
            return Err(e);
        },
    };
    let end: usize = HEADER_SIZE + header.declared as usize;
    if bytes.len() - end < CHECKSUM_SIZE {
        return Err(DecodeError::Truncated);
    }
    let stored: u16 = read_u16_at(bytes, end);
    let checksum: u16 = match validate_checksum(stored, serialized.as_slice(), options.checksum) {
        Ok(checksum) => checksum,
        Err(e) => {
            return Err(e);
        },
    };
    Ok(File::from_raw_parts(header.signature, header.comment, variable_length, variable, checksum))
}

impl<T: Payload> File<T> {
    /// Reads a file from bytes.
    ///
    /// The signature, the length of the variable and the checksum are each checked in the
    /// mode that `options` gives for it, in this order, and reading ends at the first check
    /// that fails. The variable is read by the deserializer of `T` from as many bytes behind
    /// the header as the header declares. A file that was read with no check in
    /// [`ReadMode::Ignore`] is consistent.
    pub fn from_bytes(bytes: &[u8], options: &FileReadOptions) -> (read: Result<Self, DecodeError>)
        ensures
            match read {
                Ok(file) => decoded::<T>(bytes@, *options) == Ok::<FileView, DecodeError>(file@),
                Err(e) => decoded::<T>(bytes@, *options) == Err::<FileView, DecodeError>(e),
            },
            read matches Ok(file) ==> {
                &&& options.signature != ReadMode::Ignore ==> file@.signature == SIGNATURE@
                &&& options.variable_length != ReadMode::Ignore ==> file@.length_matches()
                &&& options.checksum != ReadMode::Ignore ==> file@.checksum_matches()
            },
    {
        let header: Header = match read_header(bytes, options) {
            Ok(header) => header,
            Err(e) => {
                return Err(e);
            },
        };
        let region: &[u8] = slice_subrange(
            bytes,
            HEADER_SIZE,
            HEADER_SIZE + header.declared as usize,
        );
        let read: Result<T, DecodeError> = T::from_bytes(region, &options.variable);
        finish(bytes, options, header, read)
    }

    /// Reads a file from bytes whose variable region a deserializer has read already; `read`
    /// is what it gave.
    ///
    /// This is [`File::from_bytes`] without the call of the deserializer: the header is read
    /// and checked, the length is held against the payload in `read`, and the checksum against
    /// its bytes. The file that comes back holds that payload.
    pub fn from_bytes_with(
        bytes: &[u8],
        options: &FileReadOptions,
        read: Result<T, DecodeError>,
    ) -> (file: Result<Self, DecodeError>)
        ensures
            match file {
                Ok(file) => {
                    &&& decoded_with(bytes@, *options, read_variable(read)) == Ok::<
                        FileView,
                        DecodeError,
                    >(file@)
                    &&& read matches Ok(payload) && *file.variable().payload() == payload
                },
                Err(e) => decoded_with(bytes@, *options, read_variable(read)) == Err::<
                    FileView,
                    DecodeError,
                >(e),
            },
            file matches Ok(file) ==> {
                &&& options.signature != ReadMode::Ignore ==> file@.signature == SIGNATURE@
                &&& options.variable_length != ReadMode::Ignore ==> file@.length_matches()
                &&& options.checksum != ReadMode::Ignore ==> file@.checksum_matches()
            },
    {
        let header: Header = match read_header(bytes, options) {
            Ok(header) => header,
            Err(e) => {
                return Err(e);
            },
        };
        finish(bytes, options, header, read)
    }
}

/// A file that was read with its checksum checked or repaired stores the checksum of its
/// variable.
pub proof fn lemma_decoded_checksum_matches(
    bytes: Seq<u8>,
    options: FileReadOptions,
    variable: Result<Seq<u8>, DecodeError>,
)
    requires
        options.checksum != ReadMode::Ignore,
    ensures
        decoded_with(bytes, options, variable) matches Ok(file) ==> file.checksum_matches(),
{
}

/// A file that was read with its length checked or repaired declares the length of its
/// variable.
pub proof fn lemma_decoded_length_matches(
    bytes: Seq<u8>,
    options: FileReadOptions,
    variable: Result<Seq<u8>, DecodeError>,
)
    requires
        options.variable_length != ReadMode::Ignore,
    ensures
        decoded_with(bytes, options, variable) matches Ok(file) ==> file.length_matches(),
{
}

/// A file that was read with every check made or repaired is consistent.
pub proof fn lemma_decoded_is_consistent(
    bytes: Seq<u8>,
    options: FileReadOptions,
    variable: Result<Seq<u8>, DecodeError>,
)
    requires
        options.signature != ReadMode::Ignore,
        options.variable_length != ReadMode::Ignore,
        options.checksum != ReadMode::Ignore,
    ensures
        decoded_with(bytes, options, variable) matches Ok(file) ==> file.is_consistent(),
{
}

/// Writing a consistent file as bytes and reading the bytes with every check in
/// [`ReadMode::Error`] gives the file back, if the payload's deserializer reads the bytes of
/// the variable as themselves.
pub proof fn lemma_written_file_is_read_back<T: Payload>(file: FileView)
    requires
        file.signature.len() == SIGNATURE_SIZE,
        file.comment.len() == COMMENT_SIZE,
        file.is_consistent(),
        T::deserialized(file.variable, VariableReadOptions) == Ok::<Seq<u8>, DecodeError>(
            file.variable,
        ),
    ensures
        decoded::<T>(file.encoded(), FileReadOptions::strict()) == Ok::<FileView, DecodeError>(
            file,
        ),
{
    let bytes = file.encoded();
    let length = file.variable_length;
    assert(bytes.subrange(0, SIGNATURE_SIZE as int) =~= file.signature);
    assert(bytes.subrange(SIGNATURE_SIZE as int, SIGNATURE_SIZE + COMMENT_SIZE) =~= file.comment);
    assert(bytes.subrange(HEADER_SIZE as int, HEADER_SIZE + length) =~= file.variable);
}

/// Writing a consistent file of a real number as bytes and reading the bytes with every check
/// in [`ReadMode::Error`] gives the file back.
pub proof fn lemma_written_real_file_is_read_back(file: FileView)
    requires
        file.signature.len() == SIGNATURE_SIZE,
        file.comment.len() == COMMENT_SIZE,
        file.is_consistent(),
    ensures
        decoded::<Real>(file.encoded(), FileReadOptions::strict()) == Ok::<FileView, DecodeError>(
            file,
        ),
{
    lemma_written_file_is_read_back::<Real>(file);
}

} // verus!
