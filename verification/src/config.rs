//! The static application configuration: read once at startup, immutable for
//! the process lifetime, shared by the network link and the uploader.
use vstd::prelude::*;

verus! {

/// The process-wide configuration record.  All fields are strings; every
/// field defaults to empty.  An empty `wifi_ssid` is rejected later, when the
/// link is brought up; the other fields are passed through as given.
#[derive(Clone, Debug)]
pub struct Config {
    /// Name of the wireless network to join.
    pub wifi_ssid: String,
    /// Pre-shared key; empty selects an open (no-auth) network.
    pub wifi_psk: String,
    /// Value of the `api-key` request header.
    pub api_key: String,
    /// Value of the `dataSource` payload field.
    pub data_source: String,
    /// Value of the `database` payload field.
    pub database: String,
    /// Value of the `collection` payload field.
    pub collection: String,
    /// Application identifier spliced into the endpoint URL.
    pub app_id: String,
}

impl Config {
    /// Builds a configuration from its seven fields, in declaration order.
    pub fn new(
        wifi_ssid: String,
        wifi_psk: String,
        api_key: String,
        data_source: String,
        database: String,
        collection: String,
        app_id: String,
    ) -> (r: Config)
        ensures
            r.wifi_ssid@ == wifi_ssid@,
            r.wifi_psk@ == wifi_psk@,
            r.api_key@ == api_key@,
            r.data_source@ == data_source@,
            r.database@ == database@,
            r.collection@ == collection@,
            r.app_id@ == app_id@,
    {
        Config { wifi_ssid, wifi_psk, api_key, data_source, database, collection, app_id }
    }
}

impl Default for Config {
    /// Every field defaults to the empty string.
    fn default() -> (r: Config)
        ensures
            r.wifi_ssid@ == Seq::<char>::empty(),
            r.wifi_psk@ == Seq::<char>::empty(),
            r.api_key@ == Seq::<char>::empty(),
            r.data_source@ == Seq::<char>::empty(),
            r.database@ == Seq::<char>::empty(),
            r.collection@ == Seq::<char>::empty(),
            r.app_id@ == Seq::<char>::empty(),
    {
        Config {
            wifi_ssid: String::new(),
            wifi_psk: String::new(),
            api_key: String::new(),
            data_source: String::new(),
            database: String::new(),
            collection: String::new(),
            app_id: String::new(),
        }
    }
}

} // verus!
