use sugar_upload::bundlr::{
    balance_url, bundlr_node, funding_url, info_url, price_url, BundlrHandler, Cluster,
    UploadMethod, BUNDLR_DEVNET, BUNDLR_MAINNET,
};
use sugar_upload::task::UploadError;

#[test]
fn each_cluster_has_its_node() {
    assert_eq!(bundlr_node(UploadMethod::Bundlr, Cluster::Devnet), Ok("https://devnet.bundlr.network"));
    assert_eq!(bundlr_node(UploadMethod::Bundlr, Cluster::Mainnet), Ok("https://node1.bundlr.network"));
    assert_eq!(BUNDLR_DEVNET, "https://devnet.bundlr.network");
    assert_eq!(BUNDLR_MAINNET, "https://node1.bundlr.network");
}

#[test]
fn other_upload_methods_are_not_served() {
    for cluster in [Cluster::Devnet, Cluster::Mainnet] {
        assert_eq!(
            bundlr_node(UploadMethod::AWS, cluster),
            Err(UploadError::UnsupportedMethod(UploadMethod::AWS))
        );
        assert_eq!(
            BundlrHandler::initialize(UploadMethod::AWS, cluster, "addr".to_string(), &[1, 2, 3]),
            Err(UploadError::UnsupportedMethod(UploadMethod::AWS))
        );
    }
}

#[test]
fn the_handler_knows_node_address_and_key() {
    let key = [0x04, 0x30, 0x5e, 0x2b, 0x24, 0x73, 0xf0, 0x58];
    let handler = BundlrHandler::initialize(
        UploadMethod::Bundlr,
        Cluster::Devnet,
        "DepositAddress1111".to_string(),
        &key,
    )
    .unwrap();
    assert_eq!(handler.node(), "https://devnet.bundlr.network");
    assert_eq!(handler.address(), "DepositAddress1111");
    assert_eq!(handler.signer_key(), "he11owor1d");
    let main =
        BundlrHandler::initialize(UploadMethod::Bundlr, Cluster::Mainnet, String::new(), &[]).unwrap();
    assert_eq!(main.node(), "https://node1.bundlr.network");
    assert_eq!(main.signer_key(), "");
}

#[test]
fn the_endpoints_of_a_node() {
    let node = "https://devnet.bundlr.network";
    assert_eq!(info_url(node), "https://devnet.bundlr.network/info");
    assert_eq!(
        balance_url(node, "9xQeWvG816bUx9EP"),
        "https://devnet.bundlr.network/account/balance/solana/?address=9xQeWvG816bUx9EP"
    );
    assert_eq!(price_url(node, 1_292_345), "https://devnet.bundlr.network/price/solana/1292345");
    assert_eq!(price_url(node, 0), "https://devnet.bundlr.network/price/solana/0");
    assert_eq!(funding_url(node), "https://devnet.bundlr.network/account/balance/solana");
}

#[test]
fn amounts_in_the_answers() {
    let answer = |text: &str| serde_json::from_str::<serde_json::Value>(text).unwrap();
    assert_eq!(BundlrHandler::get_bundlr_balance(&answer(r#"{"balance":"1500000"}"#)), Some(1_500_000));
    assert_eq!(BundlrHandler::get_bundlr_balance(&answer(r#"{"balance":"0"}"#)), Some(0));
    assert_eq!(BundlrHandler::get_bundlr_balance(&answer(r#"{"balance":""}"#)), None);
    assert_eq!(BundlrHandler::get_bundlr_balance(&answer(r#"{"balance":"1.5"}"#)), None);
    assert_eq!(BundlrHandler::get_bundlr_balance(&answer(r#"{"balance":15}"#)), None);
    assert_eq!(
        BundlrHandler::get_bundlr_solana_address(&answer(r#"{"addresses":{"solana":"DHyDV2Zj"}}"#)),
        Some("DHyDV2Zj".to_string())
    );
    assert_eq!(BundlrHandler::get_bundlr_solana_address(&answer(r#"{"addresses":{}}"#)), None);
    assert_eq!(BundlrHandler::get_bundlr_fee("7001"), Some(7_001));
    assert_eq!(BundlrHandler::get_bundlr_fee("7001\n"), None);
    assert_eq!(BundlrHandler::get_bundlr_fee("not a number"), None);
}

#[test]
fn each_error_has_its_message() {
    let cases = vec![
        (
            UploadError::NoBundlrBalance("9xQeWvG8".to_string()),
            "No Bundlr balance found for address: 9xQeWvG8, check Bundlr cluster and address balance",
        ),
        (UploadError::SendDataFailed("Not all files were uploaded.".to_string()), "Not all files were uploaded."),
        (UploadError::InvalidExtension, "Invalid file extension"),
        (UploadError::MissingAsset(17), "Failed to get asset at index 17"),
        (UploadError::MissingAnimation(0), "Failed to get animation of asset at index 0"),
        (UploadError::MissingExtension(4096), "Failed to get extension of asset at index 4096"),
        (UploadError::MissingCacheItem("12".to_string()), "Failed to get config item at index 12"),
        (UploadError::DuplicateAsset("3".to_string()), "Asset selected more than once: 3"),
        (UploadError::WrongDataType("5".to_string()), "Task of another data type for asset: 5"),
        (
            UploadError::UnsupportedMethod(UploadMethod::AWS),
            "Upload method 'aws' currently unsupported!",
        ),
    ];
    for (error, text) in cases {
        assert_eq!(error.message(), text);
        assert_eq!(error.duplicate(), error);
    }
    assert_eq!(UploadMethod::Bundlr.name(), "bundlr");
}
