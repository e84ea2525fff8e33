//! The error surface handed to FFI client applications: every internal
//! failure becomes an integer code and a message.  The mapping from each
//! failure to its code is the contract here.

use vstd::prelude::*;
use crate::output_manager::OutputManagerStorageError;

verus! {

/// A failure at the FFI boundary itself.
#[derive(Debug)]
pub enum InterfaceError {
    /// A parameter that must not be null was null.
    NullError(String),
    /// Checking the length of an allocated object failed.
    AllocationError,
    /// A supplied position was out of range.
    PositionInvalidError,
    /// The asynchronous runtime could not be created.
    TokioError(String),
}

/// A failure of the wallet's output-manager service.
#[derive(Debug)]
pub enum OutputManagerError {
    NotEnoughFunds,
    IncompleteTransaction,
    DuplicateOutput,
    OutputManagerStorageError(OutputManagerStorageError),
    Other,
}

/// A failure of the wallet's transaction store.
#[derive(Debug)]
pub enum TransactionStorageError {
    DuplicateOutput,
    ValueNotFound,
    Other,
}

/// A failure of the wallet's transaction service.
#[derive(Debug)]
pub enum TransactionServiceError {
    InvalidStateError,
    TransactionProtocolError,
    RepeatedMessageError,
    TransactionDoesNotExistError,
    OutputManagerError(OutputManagerError),
    TransactionError,
    TransactionStorageError(TransactionStorageError),
    Other,
}

/// A failure of the wallet's contacts store.
#[derive(Debug)]
pub enum ContactsServiceStorageError {
    DuplicateContact,
    OperationNotSupported,
    ConversionError,
    ValuesNotFound,
    Other,
}

/// A failure of the wallet's contacts service.
#[derive(Debug)]
pub enum ContactsServiceError {
    ContactNotFound,
    ContactsServiceStorageError(ContactsServiceStorageError),
    Other,
}

/// A failure while parsing or using a peer address.
#[derive(Clone, Copy, PartialEq, Eq, Structural, Debug)]
pub enum MultiaddrError {
    ParsingError,
    InvalidMultiaddr,
    MissingAddress,
    UnknownProtocol,
    UnknownProtocolString,
}

/// A failure while decoding hex text.
#[derive(Clone, Copy, PartialEq, Eq, Structural, Debug)]
pub enum HexError {
    LengthError,
    HexConversionError,
    InvalidCharacter(char),
}

/// A failure while converting byte arrays.
#[derive(Debug)]
pub enum ByteArrayError {
    IncorrectLength,
    ConversionError(String),
}

/// A failure while handling a node identifier.
#[derive(Clone, Copy, PartialEq, Eq, Structural, Debug)]
pub enum NodeIdError {
    IncorrectByteCount,
    OutOfBounds,
}

/// A failure while handling a node identity.
#[derive(Clone, Copy, PartialEq, Eq, Structural, Debug)]
pub enum NodeIdentityError {
    NodeIdError(NodeIdError),
    PoisonedAccess,
}

/// A top-level wallet failure.
#[derive(Debug)]
pub enum WalletError {
    OutputManagerError(OutputManagerError),
    TransactionServiceError(TransactionServiceError),
    ContactsServiceError(ContactsServiceError),
    MultiaddrError(MultiaddrError),
    Other,
}

/// The code for a failure at the FFI boundary.
pub open spec fn interface_error_code(v: InterfaceError) -> int {
    match v {
        InterfaceError::NullError(_) => 1,
        InterfaceError::AllocationError => 2,
        InterfaceError::PositionInvalidError => 3,
        InterfaceError::TokioError(_) => 4,
    }
}

/// The code for a top-level wallet failure; failures without a slot of
/// their own share the catch-all code 999.
pub open spec fn wallet_error_code(w: WalletError) -> int {
    match w {
        WalletError::OutputManagerError(OutputManagerError::NotEnoughFunds) => 101,
        WalletError::OutputManagerError(OutputManagerError::IncompleteTransaction) => 102,
        WalletError::OutputManagerError(OutputManagerError::DuplicateOutput) => 103,
        WalletError::OutputManagerError(
            OutputManagerError::OutputManagerStorageError(OutputManagerStorageError::ValuesNotFound),
        ) => 104,
        WalletError::OutputManagerError(
            OutputManagerError::OutputManagerStorageError(
                OutputManagerStorageError::OutputAlreadySpent,
            ),
        ) => 105,
        WalletError::OutputManagerError(
            OutputManagerError::OutputManagerStorageError(
                OutputManagerStorageError::PendingTransactionNotFound,
            ),
        ) => 106,
        WalletError::OutputManagerError(
            OutputManagerError::OutputManagerStorageError(
                OutputManagerStorageError::DuplicateOutput,
            ),
        ) => 107,
        WalletError::OutputManagerError(
            OutputManagerError::OutputManagerStorageError(
                OutputManagerStorageError::ValueNotFound(_),
            ),
        ) => 108,
        WalletError::TransactionServiceError(TransactionServiceError::InvalidStateError) => 201,
        WalletError::TransactionServiceError(
            TransactionServiceError::TransactionProtocolError,
        ) => 202,
        WalletError::TransactionServiceError(TransactionServiceError::RepeatedMessageError) => 203,
        WalletError::TransactionServiceError(
            TransactionServiceError::TransactionDoesNotExistError,
        ) => 204,
        WalletError::TransactionServiceError(
            TransactionServiceError::OutputManagerError(OutputManagerError::NotEnoughFunds),
        ) => 205,
        WalletError::TransactionServiceError(TransactionServiceError::OutputManagerError(_)) => 206,
        WalletError::TransactionServiceError(TransactionServiceError::TransactionError) => 207,
        WalletError::TransactionServiceError(
            TransactionServiceError::TransactionStorageError(
                TransactionStorageError::DuplicateOutput,
            ),
        ) => 208,
        WalletError::TransactionServiceError(
            TransactionServiceError::TransactionStorageError(
                TransactionStorageError::ValueNotFound,
            ),
        ) => 209,
        WalletError::MultiaddrError(_) => 301,
        WalletError::ContactsServiceError(ContactsServiceError::ContactNotFound) => 401,
        WalletError::ContactsServiceError(
            ContactsServiceError::ContactsServiceStorageError(
                ContactsServiceStorageError::DuplicateContact,
            ),
        ) => 402,
        WalletError::ContactsServiceError(
            ContactsServiceError::ContactsServiceStorageError(
                ContactsServiceStorageError::OperationNotSupported,
            ),
        ) => 403,
        WalletError::ContactsServiceError(
            ContactsServiceError::ContactsServiceStorageError(
                ContactsServiceStorageError::ConversionError,
            ),
        ) => 404,
        WalletError::ContactsServiceError(
            ContactsServiceError::ContactsServiceStorageError(
                ContactsServiceStorageError::ValuesNotFound,
            ),
        ) => 405,
        _ => 999,
    }
}

/// The code for a hex-decoding failure.
pub open spec fn hex_error_code(h: HexError) -> int {
    match h {
        HexError::LengthError => 501,
        HexError::HexConversionError => 502,
        HexError::InvalidCharacter(_) => 503,
    }
}

/// The code for a byte-array conversion failure.
pub open spec fn byte_array_error_code(b: ByteArrayError) -> int {
    match b {
        ByteArrayError::IncorrectLength => 601,
        ByteArrayError::ConversionError(_) => 602,
    }
}

/// The code for a node-identity failure.
pub open spec fn node_identity_error_code(n: NodeIdentityError) -> int {
    match n {
        NodeIdentityError::NodeIdError(NodeIdError::IncorrectByteCount) => 701,
        NodeIdentityError::NodeIdError(NodeIdError::OutOfBounds) => 702,
        NodeIdentityError::PoisonedAccess => 703,
    }
}

/// The code for a peer-address failure.
pub open spec fn multiaddr_error_code(n: MultiaddrError) -> int {
    match n {
        MultiaddrError::ParsingError => 801,
        MultiaddrError::InvalidMultiaddr => 802,
        MultiaddrError::MissingAddress => 803,
        MultiaddrError::UnknownProtocol => 804,
        MultiaddrError::UnknownProtocolString => 805,
    }
}

/// An error held for FFI client applications: an integer code and a
/// message.
#[derive(Debug)]
pub struct LibWalletError {
    pub code: i32,
    pub message: String,
}

impl LibWalletError {
    /// The code for a failure at the FFI boundary.
    pub fn from_interface_error(v: InterfaceError) -> (r: Self)
        ensures
            r.code == interface_error_code(v),
    {
        match v {
            InterfaceError::NullError(_) => LibWalletError {
                code: 1,
                message: String::from_str("a parameter was null"),
            },
            InterfaceError::AllocationError => LibWalletError {
                code: 2,
                message: String::from_str("allocation length check failed"),
            },
            InterfaceError::PositionInvalidError => LibWalletError {
                code: 3,
                message: String::from_str("position out of range"),
            },
            InterfaceError::TokioError(_) => LibWalletError {
                code: 4,
                message: String::from_str("runtime could not be created"),
            },
        }
    }

    /// The code for a top-level wallet failure: explicit slots for the
    /// mapped failures, 999 for everything else.
    pub fn from_wallet_error(w: WalletError) -> (r: Self)
        ensures
            r.code == wallet_error_code(w),
    {
        let code: i32 = match &w {
            WalletError::OutputManagerError(OutputManagerError::NotEnoughFunds) => 101,
            WalletError::OutputManagerError(OutputManagerError::IncompleteTransaction) => 102,
            WalletError::OutputManagerError(OutputManagerError::DuplicateOutput) => 103,
            WalletError::OutputManagerError(
                OutputManagerError::OutputManagerStorageError(
                    OutputManagerStorageError::ValuesNotFound,
                ),
            ) => 104,
            WalletError::OutputManagerError(
                OutputManagerError::OutputManagerStorageError(
                    OutputManagerStorageError::OutputAlreadySpent,
                ),
            ) => 105,
            WalletError::OutputManagerError(
                OutputManagerError::OutputManagerStorageError(
                    OutputManagerStorageError::PendingTransactionNotFound,
                ),
            ) => 106,
            WalletError::OutputManagerError(
                OutputManagerError::OutputManagerStorageError(
                    OutputManagerStorageError::DuplicateOutput,
                ),
            ) => 107,
            WalletError::OutputManagerError(
                OutputManagerError::OutputManagerStorageError(
                    OutputManagerStorageError::ValueNotFound(_),
                ),
            ) => 108,
            WalletError::TransactionServiceError(TransactionServiceError::InvalidStateError) => 201,
            WalletError::TransactionServiceError(
                TransactionServiceError::TransactionProtocolError,
            ) => 202,
            WalletError::TransactionServiceError(
                TransactionServiceError::RepeatedMessageError,
            ) => 203,
            WalletError::TransactionServiceError(
                TransactionServiceError::TransactionDoesNotExistError,
            ) => 204,
            WalletError::TransactionServiceError(
                TransactionServiceError::OutputManagerError(OutputManagerError::NotEnoughFunds),
            ) => 205,
            WalletError::TransactionServiceError(
                TransactionServiceError::OutputManagerError(_),
            ) => 206,
            WalletError::TransactionServiceError(TransactionServiceError::TransactionError) => 207,
            WalletError::TransactionServiceError(
                TransactionServiceError::TransactionStorageError(
                    TransactionStorageError::DuplicateOutput,
                ),
            ) => 208,
            WalletError::TransactionServiceError(
                TransactionServiceError::TransactionStorageError(
                    TransactionStorageError::ValueNotFound,
                ),
            ) => 209,
            WalletError::MultiaddrError(_) => 301,
            WalletError::ContactsServiceError(ContactsServiceError::ContactNotFound) => 401,
            WalletError::ContactsServiceError(
                ContactsServiceError::ContactsServiceStorageError(
                    ContactsServiceStorageError::DuplicateContact,
                ),
            ) => 402,
            WalletError::ContactsServiceError(
                ContactsServiceError::ContactsServiceStorageError(
                    ContactsServiceStorageError::OperationNotSupported,
                ),
            ) => 403,
            WalletError::ContactsServiceError(
                ContactsServiceError::ContactsServiceStorageError(
                    ContactsServiceStorageError::ConversionError,
                ),
            ) => 404,
            WalletError::ContactsServiceError(
                ContactsServiceError::ContactsServiceStorageError(
                    ContactsServiceStorageError::ValuesNotFound,
                ),
            ) => 405,
            _ => 999,
        };
        LibWalletError { code, message: String::from_str("wallet error") }
    }

    /// The code for a hex-decoding failure.
    pub fn from_hex_error(h: HexError) -> (r: Self)
        ensures
            r.code == hex_error_code(h),
    {
        match h {
            HexError::LengthError => LibWalletError {
                code: 501,
                message: String::from_str("hex input has the wrong length"),
            },
            HexError::HexConversionError => LibWalletError {
                code: 502,
                message: String::from_str("hex conversion failed"),
            },
            HexError::InvalidCharacter(_) => LibWalletError {
                code: 503,
                message: String::from_str("hex input holds an invalid character"),
            },
        }
    }

    /// The code for a byte-array conversion failure.
    pub fn from_byte_array_error(b: ByteArrayError) -> (r: Self)
        ensures
            r.code == byte_array_error_code(b),
    {
        match b {
            ByteArrayError::IncorrectLength => LibWalletError {
                code: 601,
                message: String::from_str("byte array has the wrong length"),
            },
            ByteArrayError::ConversionError(_) => LibWalletError {
                code: 602,
                message: String::from_str("byte array conversion failed"),
            },
        }
    }

    /// The code for a node-identity failure.
    pub fn from_node_identity_error(n: NodeIdentityError) -> (r: Self)
        ensures
            r.code == node_identity_error_code(n),
    {
        match n {
            NodeIdentityError::NodeIdError(NodeIdError::IncorrectByteCount) => LibWalletError {
                code: 701,
                message: String::from_str("node id has the wrong byte count"),
            },
            NodeIdentityError::NodeIdError(NodeIdError::OutOfBounds) => LibWalletError {
                code: 702,
                message: String::from_str("node id out of bounds"),
            },
            NodeIdentityError::PoisonedAccess => LibWalletError {
                code: 703,
                message: String::from_str("node identity access poisoned"),
            },
        }
    }

    /// The code for a peer-address failure.
    pub fn from_multiaddr_error(n: MultiaddrError) -> (r: Self)
        ensures
            r.code == multiaddr_error_code(n),
    {
        match n {
            MultiaddrError::ParsingError => LibWalletError {
                code: 801,
                message: String::from_str("address could not be parsed"),
            },
            MultiaddrError::InvalidMultiaddr => LibWalletError {
                code: 802,
                message: String::from_str("address is invalid"),
            },
            MultiaddrError::MissingAddress => LibWalletError {
                code: 803,
                message: String::from_str("address is missing"),
            },
            MultiaddrError::UnknownProtocol => LibWalletError {
                code: 804,
                message: String::from_str("address names an unknown protocol"),
            },
            MultiaddrError::UnknownProtocolString => LibWalletError {
                code: 805,
                message: String::from_str("address names an unknown protocol string"),
            },
        }
    }
}

} // verus!
