//! The storage network's side of an upload: which node serves a cluster,
//! the addresses of the node's endpoints, and the amounts in its answers.

use crate::answers::{balance_in, deposit_address_in, member, text_of_member};
use crate::cache::opt_view;
use crate::candy_machine::{base58_text, signer_key};
use crate::decimal::{decimal_text, parse_u64, parsed, to_decimal};
use serde_json::Value;
use crate::task::{UploadError, UploadErrorView};
use vstd::prelude::*;

verus! {

/// The node that serves uploads from the test cluster.
pub const BUNDLR_DEVNET: &'static str = "https://devnet.bundlr.network";

/// The node that serves uploads from the main cluster.
pub const BUNDLR_MAINNET: &'static str = "https://node1.bundlr.network";

/// How the files are stored.
#[derive(Clone, Copy, Debug, PartialEq, Eq, Structural)]
pub enum UploadMethod {
    Bundlr,
    AWS,
}

impl UploadMethod {
    /// The name of the method, as a configuration writes it.
    pub open spec fn name_text(self) -> Seq<char> {
        match self {
            UploadMethod::Bundlr => "bundlr"@,
            UploadMethod::AWS => "aws"@,
        }
    }

    /// The name of the method, as a configuration writes it.
    pub fn name(&self) -> (name: &'static str)
        ensures
            name@ == self.name_text(),
    {
        match self {
            UploadMethod::Bundlr => "bundlr",
            UploadMethod::AWS => "aws",
        }
    }
}

/// The cluster that the program talks to.
#[derive(Clone, Copy, Debug, PartialEq, Eq, Structural)]
pub enum Cluster {
    Devnet,
    Mainnet,
}

/// The node that serves `cluster`.
pub open spec fn node_of(cluster: Cluster) -> Seq<char> {
    match cluster {
        Cluster::Devnet => BUNDLR_DEVNET@,
        Cluster::Mainnet => BUNDLR_MAINNET@,
    }
}

/// The node that serves uploads of `upload_method` from `cluster`. Only
/// uploads by `UploadMethod::Bundlr` are served.
pub fn bundlr_node(upload_method: UploadMethod, cluster: Cluster) -> (r: Result<
    &'static str,
    UploadError,
>)
    ensures
        match r {
            Ok(node) => upload_method == UploadMethod::Bundlr && node@ == node_of(cluster),
            Err(e) => upload_method != UploadMethod::Bundlr && e@
                == UploadErrorView::UnsupportedMethod(upload_method),
        },
{
    match upload_method {
        UploadMethod::Bundlr => match cluster {
            Cluster::Devnet => Ok(BUNDLR_DEVNET),
            Cluster::Mainnet => Ok(BUNDLR_MAINNET),
        },
        _ => Err(UploadError::UnsupportedMethod(upload_method)),
    }
}

/// The address of the endpoint that tells the node's deposit addresses.
pub fn info_url(node: &str) -> (url: String)
    ensures
        url@ == node@ + "/info"@,
{
    let mut url = node.to_owned();
    url.append("/info");
    url
}

/// The address of the endpoint that tells the balance of `address`.
pub fn balance_url(node: &str, address: &str) -> (url: String)
    ensures
        url@ == node@ + "/account/balance/solana/?address="@ + address@,
{
    let mut url = node.to_owned();
    url.append("/account/balance/solana/?address=");
    url.append(address);
    url
}

/// The address of the endpoint that tells the price of storing `data_size`
/// bytes.
pub fn price_url(node: &str, data_size: u64) -> (url: String)
    ensures
        url@ == node@ + "/price/solana/"@ + decimal_text(data_size as nat),
{
    let mut url = node.to_owned();
    url.append("/price/solana/");
    let size = to_decimal(data_size);
    url.append(size.as_str());
    url
}

/// The address of the endpoint that is told of a transfer.
pub fn funding_url(node: &str) -> (url: String)
    ensures
        url@ == node@ + "/account/balance/solana"@,
{
    let mut url = node.to_owned();
    url.append("/account/balance/solana");
    url
}

/// What an upload by way of the storage network needs to know: the node, the
/// node's deposit address and the key with which the uploads are signed.
#[derive(Clone, Debug, PartialEq, Eq)]
pub struct BundlrHandler {
    node: String,
    address: String,
    signer_key: String,
}

impl BundlrHandler {
    /// The node.
    pub closed spec fn node_text(&self) -> Seq<char> {
        self.node@
    }

    /// The node's deposit address.
    pub closed spec fn address_text(&self) -> Seq<char> {
        self.address@
    }

    /// The signing key, as text.
    pub closed spec fn signer_text(&self) -> Seq<char> {
        self.signer_key@
    }

    /// Sets up the upload of `upload_method` from `cluster`, with the
    /// deposit address that the node gave and the bytes of the signing key.
    /// Only uploads by `UploadMethod::Bundlr` are served; for them the
    /// handler knows the node of the cluster, the address, and the key as
    /// Base58 text.
    pub fn initialize(
        upload_method: UploadMethod,
        cluster: Cluster,
        bundlr_address: String,
        keypair: &[u8],
    ) -> (r: Result<BundlrHandler, UploadError>)
        ensures
            match r {
                Ok(handler) => {
                    &&& upload_method == UploadMethod::Bundlr
                    &&& handler.node_text() == node_of(cluster)
                    &&& handler.address_text() == bundlr_address@
                    &&& handler.signer_text() == base58_text(keypair@)
                },
                Err(e) => upload_method != UploadMethod::Bundlr && e@
                    == UploadErrorView::UnsupportedMethod(upload_method),
            },
    {
        let node = match bundlr_node(upload_method, cluster) {
            Ok(node) => node,
            Err(e) => {
                return Err(e);
            },
        };
        Ok(BundlrHandler { node: node.to_owned(), address: bundlr_address, signer_key: signer_key(keypair) })
    }

    /// The node.
    pub fn node(&self) -> (node: &str)
        ensures
            node@ == self.node_text(),
    {
        self.node.as_str()
    }

    /// The node's deposit address.
    pub fn address(&self) -> (address: &str)
        ensures
            address@ == self.address_text(),
    {
        self.address.as_str()
    }

    /// The signing key, as Base58 text.
    pub fn signer_key(&self) -> (key: &str)
        ensures
            key@ == self.signer_text(),
    {
        self.signer_key.as_str()
    }

    /// The deposit address for Solana that the node's description of itself
    /// names: the string under `addresses`, `solana`. `None` if it names
    /// none.
    pub fn get_bundlr_solana_address(info: &Value) -> (r: Option<String>)
        ensures
            opt_view(r) == deposit_address_in(*info),
    {
        let addresses = match member(info, "addresses") {
            Some(addresses) => addresses,
            None => {
                return None;
            },
        };
        match text_of_member(addresses, "solana") {
            Some(address) => Some(address.to_owned()),
            None => None,
        }
    }

    /// The balance that the node's answer tells: the number that the string
    /// under `balance` writes. `None` if there is no such string or it
    /// writes no number.
    pub fn get_bundlr_balance(answer: &Value) -> (r: Option<u64>)
        ensures
            r == balance_in(*answer),
    {
        match text_of_member(answer, "balance") {
            Some(text) => parse_u64(text),
            None => None,
        }
    }

    /// The price that the node's answer tells: the number that the text of
    /// the answer writes, if it writes one.
    pub fn get_bundlr_fee(answer: &str) -> (r: Option<u64>)
        ensures
            r == parsed(answer@),
    {
        parse_u64(answer)
    }
}

} // verus!
