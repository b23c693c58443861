//! The one error type of the library.

use vstd::prelude::*;
use vstd::string::StringExecFns;

verus! {

/// The categories an error falls into.
#[derive(Debug, Clone, Copy, PartialEq, Eq, Structural)]
pub enum ErrorKind {
    InvalidArgument,
    OutOfBounds,
    PreconditionViolated,
    MissingContext,
    NotInvertible,
    TransformError,
    NeedsDynamicContext,
    BadFormatter,
}

/// Every way an operation of the library can fail.
#[derive(Debug, Clone, Copy, PartialEq, Eq, Structural)]
pub enum H2Error {
    /// A project, buffer or layer name was empty.
    EmptyName,
    /// A buffer would hold no bytes.
    EmptyBuffer,
    /// An array type of length zero.
    EmptyArray,
    /// A key or IV whose length is not one of the supported widths.
    BadKeyLength,
    /// An edit that writes no bytes.
    EmptyEdit,
    /// An edit or a partial clone that reaches past the end of the buffer.
    RangeOutOfBounds,
    /// A read past the end of the data behind a context.
    ReadOutOfBounds,
    /// A size or an address that does not fit the machine's integers.
    SizeOverflow,
    /// The buffer has layers, so its bytes are frozen.
    BufferPopulated,
    /// The buffer's transformation stack is empty.
    NoTransformations,
    /// A buffer of that name exists already.
    NameCollision,
    /// No buffer of that name exists.
    NoSuchBuffer,
    /// The log has nothing to undo.
    NothingToUndo,
    /// The log has nothing to redo.
    NothingToRedo,
    /// An action was applied twice, or undone before it was applied.
    MissingContext,
    /// The transformation has no inverse.
    NotInvertible,
    /// The input is not one the transformation accepts.
    TransformFailed,
    /// The type depends on the data and no data was given.
    NeedsDynamicContext,
    /// The number cannot be rendered in the chosen format.
    BadFormatter,
    /// Rendering a floating-point value is left to the caller.
    FloatRendering,
    /// The operation is not offered yet.
    NotImplemented,
    /// The number is of a kind that has no value of the asked type.
    NotConvertible,
    /// An action with both of its slots filled, or with neither.
    CorruptAction,
}

impl H2Error {
    /// The category of this error.
    pub open spec fn kind_spec(self) -> ErrorKind {
        match self {
            H2Error::EmptyName => ErrorKind::InvalidArgument,
            H2Error::EmptyBuffer => ErrorKind::InvalidArgument,
            H2Error::EmptyArray => ErrorKind::InvalidArgument,
            H2Error::BadKeyLength => ErrorKind::InvalidArgument,
            H2Error::EmptyEdit => ErrorKind::InvalidArgument,
            H2Error::RangeOutOfBounds => ErrorKind::OutOfBounds,
            H2Error::ReadOutOfBounds => ErrorKind::OutOfBounds,
            H2Error::SizeOverflow => ErrorKind::OutOfBounds,
            H2Error::BufferPopulated => ErrorKind::PreconditionViolated,
            H2Error::NoTransformations => ErrorKind::PreconditionViolated,
            H2Error::NameCollision => ErrorKind::PreconditionViolated,
            H2Error::NoSuchBuffer => ErrorKind::PreconditionViolated,
            H2Error::NothingToUndo => ErrorKind::PreconditionViolated,
            H2Error::NothingToRedo => ErrorKind::PreconditionViolated,
            H2Error::MissingContext => ErrorKind::MissingContext,
            H2Error::NotInvertible => ErrorKind::NotInvertible,
            H2Error::TransformFailed => ErrorKind::TransformError,
            H2Error::NeedsDynamicContext => ErrorKind::NeedsDynamicContext,
            H2Error::BadFormatter => ErrorKind::BadFormatter,
            H2Error::FloatRendering => ErrorKind::BadFormatter,
            H2Error::NotImplemented => ErrorKind::PreconditionViolated,
            H2Error::NotConvertible => ErrorKind::InvalidArgument,
            H2Error::CorruptAction => ErrorKind::MissingContext,
        }
    }

    /// The text that describes this error.
    pub open spec fn message_spec(self) -> Seq<char> {
        match self {
            H2Error::EmptyName => "Name can't be blank"@,
            H2Error::EmptyBuffer => "Can't create a buffer of zero length"@,
            H2Error::EmptyArray => "Can't create an array of zero length"@,
            H2Error::BadKeyLength => "Invalid key or iv length"@,
            H2Error::EmptyEdit => "Can't edit zero bytes"@,
            H2Error::RangeOutOfBounds => "Editing data into buffer is too long"@,
            H2Error::ReadOutOfBounds => "Read past the end of the data"@,
            H2Error::SizeOverflow => "Size is too large"@,
            H2Error::BufferPopulated => "Buffer contains data"@,
            H2Error::NoTransformations => "Buffer has no transformations"@,
            H2Error::NameCollision => "Buffer already exists"@,
            H2Error::NoSuchBuffer => "Buffer not found"@,
            H2Error::NothingToUndo => "Nothing to undo"@,
            H2Error::NothingToRedo => "Nothing to redo"@,
            H2Error::MissingContext => "Failed to apply or undo: missing context"@,
            H2Error::NotInvertible => "Transformation is not invertible"@,
            H2Error::TransformFailed => "Transformation failed"@,
            H2Error::NeedsDynamicContext => "A dynamic context is required"@,
            H2Error::BadFormatter => "Cannot display the number in this format"@,
            H2Error::FloatRendering => "Floating point values are rendered by the caller"@,
            H2Error::NotImplemented => "Not implemented"@,
            H2Error::NotConvertible => "The number can't be converted"@,
            H2Error::CorruptAction => "The action is armed for both steps or for neither"@,
        }
    }

    pub fn kind(&self) -> (k: ErrorKind)
        ensures
            k == self.kind_spec(),
    {
        match self {
            H2Error::EmptyName => ErrorKind::InvalidArgument,
            H2Error::EmptyBuffer => ErrorKind::InvalidArgument,
            H2Error::EmptyArray => ErrorKind::InvalidArgument,
            H2Error::BadKeyLength => ErrorKind::InvalidArgument,
            H2Error::EmptyEdit => ErrorKind::InvalidArgument,
            H2Error::RangeOutOfBounds => ErrorKind::OutOfBounds,
            H2Error::ReadOutOfBounds => ErrorKind::OutOfBounds,
            H2Error::SizeOverflow => ErrorKind::OutOfBounds,
            H2Error::BufferPopulated => ErrorKind::PreconditionViolated,
            H2Error::NoTransformations => ErrorKind::PreconditionViolated,
            H2Error::NameCollision => ErrorKind::PreconditionViolated,
            H2Error::NoSuchBuffer => ErrorKind::PreconditionViolated,
            H2Error::NothingToUndo => ErrorKind::PreconditionViolated,
            H2Error::NothingToRedo => ErrorKind::PreconditionViolated,
            H2Error::MissingContext => ErrorKind::MissingContext,
            H2Error::NotInvertible => ErrorKind::NotInvertible,
            H2Error::TransformFailed => ErrorKind::TransformError,
            H2Error::NeedsDynamicContext => ErrorKind::NeedsDynamicContext,
            H2Error::BadFormatter => ErrorKind::BadFormatter,
            H2Error::FloatRendering => ErrorKind::BadFormatter,
            H2Error::NotImplemented => ErrorKind::PreconditionViolated,
            H2Error::NotConvertible => ErrorKind::InvalidArgument,
            H2Error::CorruptAction => ErrorKind::MissingContext,
        }
    }

    pub fn message(&self) -> (s: String)
        ensures
            s@ == self.message_spec(),
    {
        match self {
            H2Error::EmptyName => String::from_str("Name can't be blank"),
            H2Error::EmptyBuffer => String::from_str("Can't create a buffer of zero length"),
            H2Error::EmptyArray => String::from_str("Can't create an array of zero length"),
            H2Error::BadKeyLength => String::from_str("Invalid key or iv length"),
            H2Error::EmptyEdit => String::from_str("Can't edit zero bytes"),
            H2Error::RangeOutOfBounds => String::from_str("Editing data into buffer is too long"),
            H2Error::ReadOutOfBounds => String::from_str("Read past the end of the data"),
            H2Error::SizeOverflow => String::from_str("Size is too large"),
            H2Error::BufferPopulated => String::from_str("Buffer contains data"),
            H2Error::NoTransformations => String::from_str("Buffer has no transformations"),
            H2Error::NameCollision => String::from_str("Buffer already exists"),
            H2Error::NoSuchBuffer => String::from_str("Buffer not found"),
            H2Error::NothingToUndo => String::from_str("Nothing to undo"),
            H2Error::NothingToRedo => String::from_str("Nothing to redo"),
            H2Error::MissingContext => String::from_str("Failed to apply or undo: missing context"),
            H2Error::NotInvertible => String::from_str("Transformation is not invertible"),
            H2Error::TransformFailed => String::from_str("Transformation failed"),
            H2Error::NeedsDynamicContext => String::from_str("A dynamic context is required"),
            H2Error::BadFormatter => String::from_str("Cannot display the number in this format"),
            H2Error::FloatRendering => String::from_str(
                "Floating point values are rendered by the caller",
            ),
            H2Error::NotImplemented => String::from_str("Not implemented"),
            H2Error::NotConvertible => String::from_str("The number can't be converted"),
            H2Error::CorruptAction => String::from_str(
                "The action is armed for both steps or for neither",
            ),
        }
    }
}

} // verus!
