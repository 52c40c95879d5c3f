use vstd::prelude::*;

verus! {

/// Credentials of the wireless network the device joins.
pub struct WifiConfig {
    pub ssid: String,
    pub password: String,
}

/// Where the remote chat service lives and how to authenticate to it.
pub struct TelegramConfig {
    pub api_base: String,
    pub bot_token: String,
}

} // verus!
