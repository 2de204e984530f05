//! What a file carries: a variable, which wraps a payload of some kind.

use vstd::prelude::*;
use vstd::slice::slice_to_vec;
use crate::error::DecodeError;
use crate::layout::MAX_VARIABLE_LENGTH;
use crate::mode::VariableReadOptions;

verus! {

/// A kind of data that a variable can hold.
///
/// A kind says how its values are written as bytes and read back, and under which file
/// extension files of this kind go. What the bytes mean is the kind's own matter: a file only
/// takes their length and their sum.
///
/// Writing and reading answer for their arguments alone: a payload is always written as the
/// same bytes, [`Payload::serialized`], and the same bytes are always read the same way,
/// [`Payload::deserialized`]. Nothing more is asked of a kind; in particular it need not read
/// back what it wrote, nor use up the bytes it is given.
pub trait Payload: Sized {
    /// The extension of files that hold a payload of this kind.
    const FILE_EXTENSION: &'static str;

    /// The bytes that stand for this payload in a file.
    spec fn serialized(&self) -> Seq<u8>;

    /// What reading `bytes` under `options` gives: the serialized form of the payload that
    /// is read, or the error with which the bytes are refused.
    spec fn deserialized(bytes: Seq<u8>, options: VariableReadOptions) -> Result<
        Seq<u8>,
        DecodeError,
    >;

    /// Writes this payload as bytes.
    fn bytes(&self) -> (out: Vec<u8>)
        ensures
            out@ == self.serialized(),
    ;

    /// Reads a payload from the bytes of a file's variable region.
    fn from_bytes(bytes: &[u8], options: &VariableReadOptions) -> (read: Result<
        Self,
        DecodeError,
    >)
        ensures
            match read {
                Ok(payload) => Self::deserialized(bytes@, *options) == Ok::<Seq<u8>, DecodeError>(
                    payload.serialized(),
                ),
                Err(e) => Self::deserialized(bytes@, *options) == Err::<Seq<u8>, DecodeError>(e),
            },
    ;
}

/// A real number, kept as the bytes that stand for it. The digits are not looked at.
pub struct Real {
    raw: Vec<u8>,
}

impl Payload for Real {
    const FILE_EXTENSION: &'static str = "8xn";

    closed spec fn serialized(&self) -> Seq<u8> {
        self.raw@
    }

    /// Any bytes are taken, and they are kept as they are.
    open spec fn deserialized(bytes: Seq<u8>, options: VariableReadOptions) -> Result<
        Seq<u8>,
        DecodeError,
    > {
        Ok(bytes)
    }

    fn bytes(&self) -> (out: Vec<u8>) {
        self.raw.clone()
    }

    fn from_bytes(bytes: &[u8], options: &VariableReadOptions) -> (read: Result<
        Self,
        DecodeError,
    >) {
        Ok(Real { raw: slice_to_vec(bytes) })
    }
}

/// The variable of a file. It wraps one payload, whose bytes are few enough for the length
/// field of a file to hold their number.
pub struct Variable<T: Payload> {
    payload: T,
}

impl<T: Payload> View for Variable<T> {
    type V = Seq<u8>;

    /// A variable is seen as the bytes that stand for it in a file.
    open spec fn view(&self) -> Seq<u8> {
        self.payload().serialized()
    }
}

impl<T: Payload> Variable<T> {
    #[verifier::type_invariant]
    spec fn fits_length_field(&self) -> bool {
        self.payload.serialized().len() <= MAX_VARIABLE_LENGTH
    }

    /// The payload that this variable wraps.
    pub closed spec fn spec_payload(&self) -> &T {
        &self.payload
    }

    /// Wraps a payload and hands out its bytes with it, or hands the payload back if its
    /// bytes are too many.
    pub(crate) fn with_bytes(payload: T) -> (made: Result<(Self, Vec<u8>), T>)
        ensures
            match made {
                Ok((variable, bytes)) => {
                    &&& *variable.payload() == payload
                    &&& bytes@ == payload.serialized()
                    &&& bytes@.len() <= MAX_VARIABLE_LENGTH
                },
                Err(back) => back == payload && payload.serialized().len() > MAX_VARIABLE_LENGTH,
            },
    {
        let bytes: Vec<u8> = payload.bytes();
        if bytes.len() <= MAX_VARIABLE_LENGTH {
            Ok((Variable { payload }, bytes))
        } else {
            Err(payload)
        }
    }

    /// Wraps a payload. A payload whose bytes are more than the length field of a file can
    /// declare ([`MAX_VARIABLE_LENGTH`]) cannot be the variable of a file, and is handed back.
    pub fn new(payload: T) -> (made: Result<Self, T>)
        ensures
            match made {
                Ok(variable) => {
                    &&& *variable.payload() == payload
                    &&& payload.serialized().len() <= MAX_VARIABLE_LENGTH
                },
                Err(back) => back == payload && payload.serialized().len() > MAX_VARIABLE_LENGTH,
            },
    {
        match Self::with_bytes(payload) {
            Ok((variable, _)) => Ok(variable),
            Err(back) => Err(back),
        }
    }

    /// Gets the payload.
    #[verifier::when_used_as_spec(spec_payload)]
    pub fn payload(&self) -> (payload: &T)
        ensures
            payload == self.spec_payload(),
    {
        &self.payload
    }

    /// Gets the bytes that stand for the variable in a file.
    pub fn bytes(&self) -> (out: Vec<u8>)
        ensures
            out@ == self@,
            out@.len() <= MAX_VARIABLE_LENGTH,
    {
        proof {
            use_type_invariant(self);
        }
        self.payload.bytes()
    }
}

} // verus!
