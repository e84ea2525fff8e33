//! Tests of the transport configuration, the logging decisions, the
//! deduplication decision and the FFI error codes.

use chain_store::dedup::{DedupLayer, DedupMiddleware};
use chain_store::ffi_error::{
    ByteArrayError, ContactsServiceError, ContactsServiceStorageError, HexError, InterfaceError,
    LibWalletError, MultiaddrError, NodeIdError, NodeIdentityError, OutputManagerError,
    TransactionServiceError, TransactionStorageError, WalletError,
};
use chain_store::logging::get_log_configuration_path;
use chain_store::output_manager::OutputManagerStorageError;
use chain_store::tcp::TcpTransport;

#[test]
fn configure() {
    let mut tcp = TcpTransport::new();
    tcp.set_send_buffer_size(123)
        .set_recv_buffer_size(456)
        .set_nodelay(true)
        .set_ttl(789)
        .set_keepalive(Some(100));
    assert_eq!(tcp.send_buffer_size, Some(123));
    assert_eq!(tcp.recv_buffer_size, Some(456));
    assert_eq!(tcp.nodelay, Some(true));
    assert_eq!(tcp.ttl, Some(789));
    assert_eq!(tcp.keepalive, Some(Some(100)));
}

#[test]
fn transport_default_sets_nothing() {
    let tcp = TcpTransport::default();
    assert_eq!(tcp, TcpTransport::new());
    assert_eq!(tcp.recv_buffer_size, None);
}

#[test]
fn log_if_error() {
    let err = Result::<(), &str>::Err("What a shame");
    let opt = chain_store::logging::log_if_error("Error: {}", err);
    assert!(opt.is_none());

    let opt = chain_store::logging::log_if_error("Error: {}", err);
    assert!(opt.is_none());

    let opt = chain_store::logging::log_if_error("Error: {}", Result::<_, &str>::Ok("answer"));
    assert_eq!(opt, Some("answer"));
}

#[test]
fn get_log_configuration_path_cli() {
    let path = get_log_configuration_path(
        Some("~/my-tari".to_string()),
        None,
        Some("/home/someone".to_string()),
        ".".to_string(),
    );
    assert_eq!(path.as_str(), "~/my-tari");
}

#[test]
fn get_log_configuration_path_by_env_var() {
    let path = get_log_configuration_path(
        None,
        Some("~/fake-example".to_string()),
        Some("/home/someone".to_string()),
        ".".to_string(),
    );
    assert_eq!(path.as_str(), "~/fake-example");
    // An empty setting falls through to the home fallback.
    let path = get_log_configuration_path(
        None,
        Some("".to_string()),
        Some("/home/someone".to_string()),
        ".".to_string(),
    );
    assert_eq!(path.as_str(), "/home/someone/.tari/log4rs.yml");
    // Without a home directory the current directory is used.
    let path = get_log_configuration_path(None, None, None, "/work".to_string());
    assert_eq!(path.as_str(), "/work");
}

#[test]
fn dedup_decision_and_wiring() {
    assert!(DedupMiddleware::<u8, u8>::should_forward(false));
    assert!(!DedupMiddleware::<u8, u8>::should_forward(true));
    let layer = DedupLayer::new(7u32);
    let middleware = layer.layer("service");
    assert_eq!(middleware.next_service, "service");
    assert_eq!(middleware.dht_requester, 7);
    let direct = DedupMiddleware::new("service", 7u32);
    assert_eq!(direct.next_service, "service");
}

#[test]
fn interface_error_codes() {
    assert_eq!(LibWalletError::from_interface_error(InterfaceError::NullError("x".to_string())).code, 1);
    assert_eq!(LibWalletError::from_interface_error(InterfaceError::AllocationError).code, 2);
    assert_eq!(LibWalletError::from_interface_error(InterfaceError::PositionInvalidError).code, 3);
    assert_eq!(
        LibWalletError::from_interface_error(InterfaceError::TokioError("x".to_string())).code,
        4
    );
}

#[test]
fn wallet_error_codes() {
    assert_eq!(
        LibWalletError::from_wallet_error(WalletError::OutputManagerError(
            OutputManagerError::NotEnoughFunds
        ))
        .code,
        101
    );
    assert_eq!(
        LibWalletError::from_wallet_error(WalletError::OutputManagerError(
            OutputManagerError::OutputManagerStorageError(
                OutputManagerStorageError::OutputAlreadySpent
            )
        ))
        .code,
        105
    );
    assert_eq!(
        LibWalletError::from_wallet_error(WalletError::TransactionServiceError(
            TransactionServiceError::OutputManagerError(OutputManagerError::NotEnoughFunds)
        ))
        .code,
        205
    );
    assert_eq!(
        LibWalletError::from_wallet_error(WalletError::TransactionServiceError(
            TransactionServiceError::OutputManagerError(OutputManagerError::IncompleteTransaction)
        ))
        .code,
        206
    );
    assert_eq!(
        LibWalletError::from_wallet_error(WalletError::TransactionServiceError(
            TransactionServiceError::TransactionStorageError(
                TransactionStorageError::DuplicateOutput
            )
        ))
        .code,
        208
    );
    assert_eq!(
        LibWalletError::from_wallet_error(WalletError::MultiaddrError(
            MultiaddrError::InvalidMultiaddr
        ))
        .code,
        301
    );
    assert_eq!(
        LibWalletError::from_wallet_error(WalletError::ContactsServiceError(
            ContactsServiceError::ContactsServiceStorageError(
                ContactsServiceStorageError::OperationNotSupported
            )
        ))
        .code,
        403
    );
    // The catch-all code covers anything not explicitly mapped.
    assert_eq!(LibWalletError::from_wallet_error(WalletError::Other).code, 999);
    assert_eq!(
        LibWalletError::from_wallet_error(WalletError::TransactionServiceError(
            TransactionServiceError::Other
        ))
        .code,
        999
    );
}

#[test]
fn conversion_error_codes() {
    assert_eq!(LibWalletError::from_hex_error(HexError::LengthError).code, 501);
    assert_eq!(LibWalletError::from_hex_error(HexError::HexConversionError).code, 502);
    assert_eq!(LibWalletError::from_hex_error(HexError::InvalidCharacter('z')).code, 503);
    assert_eq!(LibWalletError::from_byte_array_error(ByteArrayError::IncorrectLength).code, 601);
    assert_eq!(
        LibWalletError::from_byte_array_error(ByteArrayError::ConversionError("x".to_string()))
            .code,
        602
    );
    assert_eq!(
        LibWalletError::from_node_identity_error(NodeIdentityError::NodeIdError(
            NodeIdError::IncorrectByteCount
        ))
        .code,
        701
    );
    assert_eq!(
        LibWalletError::from_node_identity_error(NodeIdentityError::PoisonedAccess).code,
        703
    );
    assert_eq!(LibWalletError::from_multiaddr_error(MultiaddrError::ParsingError).code, 801);
    assert_eq!(
        LibWalletError::from_multiaddr_error(MultiaddrError::UnknownProtocolString).code,
        805
    );
}
