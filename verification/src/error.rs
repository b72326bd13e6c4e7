//! The error taxonomy of the acquisition loop.  Configuration and network
//! errors are fatal at startup, device errors are per-cycle, transport errors
//! end the poll loop; the split drives what a caller may retry.
use vstd::prelude::*;

verus! {

/// The four fatality classes an error can fall in.
#[derive(Clone, Copy, Debug, PartialEq, Eq, Structural)]
pub enum ErrorKind {
    /// Bad or missing static configuration; fatal at startup.
    Config,
    /// The radio failed to come up or to obtain an address; fatal at startup.
    Network,
    /// A sensor transaction failed or produced an unusable value; recoverable
    /// per poll cycle.
    Device,
    /// The HTTPS exchange failed at the I/O level; fatal to the poll loop.
    Transport,
}

/// Everything that can go wrong in the library or at its edges.
#[derive(Clone, Copy, Debug, PartialEq, Eq, Structural)]
pub enum Error {
    /// The configured network name is empty.
    MissingWifiName,
    /// The radio did not report "started" before its deadline.
    WifiStartTimeout,
    /// The radio did not associate or did not obtain a non-zero address
    /// before its deadline.
    WifiDhcpTimeout,
    /// The sensor bus transaction could not be completed.
    SensorFailure,
    /// A measurement value is not rendered as a JSON number.
    InvalidMeasurement,
    /// The HTTPS connection, write or read failed.
    TransportFailure,
}

impl Error {
    /// The class a given error belongs to.
    pub open spec fn spec_kind(self) -> ErrorKind {
        match self {
            Error::MissingWifiName => ErrorKind::Config,
            Error::WifiStartTimeout => ErrorKind::Network,
            Error::WifiDhcpTimeout => ErrorKind::Network,
            Error::SensorFailure => ErrorKind::Device,
            Error::InvalidMeasurement => ErrorKind::Device,
            Error::TransportFailure => ErrorKind::Transport,
        }
    }

    /// The diagnostic text reported for a given error.
    pub open spec fn spec_message(self) -> Seq<char> {
        match self {
            Error::MissingWifiName => "Missing WiFi name"@,
            Error::WifiStartTimeout => "Wifi did not start"@,
            Error::WifiDhcpTimeout => "Wifi did not connect or did not receive a DHCP lease"@,
            Error::SensorFailure => "Sensor transaction failed"@,
            Error::InvalidMeasurement => "Measurement is not a JSON number"@,
            Error::TransportFailure => "HTTP transport failed"@,
        }
    }

    pub fn kind(&self) -> (r: ErrorKind)
        ensures
            r == self.spec_kind(),
    {
        match self {
            Error::MissingWifiName => ErrorKind::Config,
            Error::WifiStartTimeout => ErrorKind::Network,
            Error::WifiDhcpTimeout => ErrorKind::Network,
            Error::SensorFailure => ErrorKind::Device,
            Error::InvalidMeasurement => ErrorKind::Device,
            Error::TransportFailure => ErrorKind::Transport,
        }
    }

    pub fn message(&self) -> (r: String)
        ensures
            r@ == self.spec_message(),
    {
        match self {
            Error::MissingWifiName => "Missing WiFi name".to_owned(),
            Error::WifiStartTimeout => "Wifi did not start".to_owned(),
            Error::WifiDhcpTimeout => {
                "Wifi did not connect or did not receive a DHCP lease".to_owned()
            },
            Error::SensorFailure => "Sensor transaction failed".to_owned(),
            Error::InvalidMeasurement => "Measurement is not a JSON number".to_owned(),
            Error::TransportFailure => "HTTP transport failed".to_owned(),
        }
    }
}

} // verus!
