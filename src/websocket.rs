//! Endpoints of the exchange's streaming API.
use vstd::prelude::*;

verus! {

/// Where and as whom to connect to the exchange's streams.
#[derive(Clone, Debug)]
pub struct WebSocketClient {
    pub base_url: String,
    pub api_key: Option<String>,
}

impl WebSocketClient {
    /// A client of the main network.
    pub fn new_mainnet(api_key: Option<String>) -> (r: Self)
        ensures
            r.base_url@ == "wss://api.starknet.extended.exchange"@,
            r.api_key == api_key,
    {
        WebSocketClient { base_url: String::from_str("wss://api.starknet.extended.exchange"), api_key }
    }

    /// A client of the test network.
    pub fn new_testnet(api_key: Option<String>) -> (r: Self)
        ensures
            r.base_url@ == "wss://starknet.sepolia.extended.exchange"@,
            r.api_key == api_key,
    {
        WebSocketClient { base_url: String::from_str("wss://starknet.sepolia.extended.exchange"), api_key }
    }
}

} // verus!
