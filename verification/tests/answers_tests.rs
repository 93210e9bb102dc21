use serde_json::Value;
use sugar_upload::answers::transaction_id;
use sugar_upload::bundlr::BundlrHandler;

fn json(text: &str) -> Value {
    serde_json::from_str(text).unwrap()
}

#[test]
fn the_deposit_address_of_a_node() {
    let info = json(
        r#"{"version":"0.2.0","addresses":{"arweave":"OXcT1sVR","solana":"DHyDV2ZjN3rB6qNGXS48dP5onfbZd3fAEz6C5HJwSqRD"},"gateway":"arweave.net"}"#,
    );
    assert_eq!(
        BundlrHandler::get_bundlr_solana_address(&info),
        Some("DHyDV2ZjN3rB6qNGXS48dP5onfbZd3fAEz6C5HJwSqRD".to_string())
    );
}

#[test]
fn a_description_without_the_address() {
    assert_eq!(BundlrHandler::get_bundlr_solana_address(&json(r#"{"addresses":{"arweave":"x"}}"#)), None);
    assert_eq!(BundlrHandler::get_bundlr_solana_address(&json(r#"{"version":"1"}"#)), None);
    assert_eq!(BundlrHandler::get_bundlr_solana_address(&json(r#"{"addresses":{"solana":7}}"#)), None);
    assert_eq!(BundlrHandler::get_bundlr_solana_address(&json(r#"{"addresses":"solana"}"#)), None);
    assert_eq!(BundlrHandler::get_bundlr_solana_address(&json(r#"["addresses"]"#)), None);
    assert_eq!(BundlrHandler::get_bundlr_solana_address(&json("null")), None);
}

#[test]
fn the_balance_is_the_number_in_the_string() {
    assert_eq!(BundlrHandler::get_bundlr_balance(&json(r#"{"balance":"1500000"}"#)), Some(1_500_000));
    assert_eq!(BundlrHandler::get_bundlr_balance(&json(r#"{"balance":"0"}"#)), Some(0));
    assert_eq!(BundlrHandler::get_bundlr_balance(&json(r#"{"balance":"18446744073709551615"}"#)), Some(u64::MAX));
}

#[test]
fn an_answer_without_a_balance() {
    assert_eq!(BundlrHandler::get_bundlr_balance(&json(r#"{"balance":1500000}"#)), None);
    assert_eq!(BundlrHandler::get_bundlr_balance(&json(r#"{"balance":"1.5"}"#)), None);
    assert_eq!(BundlrHandler::get_bundlr_balance(&json(r#"{"balance":"18446744073709551616"}"#)), None);
    assert_eq!(BundlrHandler::get_bundlr_balance(&json(r#"{"Balance":"1"}"#)), None);
    assert_eq!(BundlrHandler::get_bundlr_balance(&json(r#"{}"#)), None);
    assert_eq!(BundlrHandler::get_bundlr_balance(&json(r#""1""#)), None);
}

#[test]
fn the_transaction_of_an_upload() {
    assert_eq!(
        transaction_id(&json(r#"{"id":"bNbA3TEQVL60xlgCcqdz4ZPHFZ711cZ3hmkpGttDt_U","block":1}"#)),
        Some("bNbA3TEQVL60xlgCcqdz4ZPHFZ711cZ3hmkpGttDt_U".to_string())
    );
    assert_eq!(transaction_id(&json(r#"{"id":12}"#)), None);
    assert_eq!(transaction_id(&json(r#"{"error":"no"}"#)), None);
}
