//! The service's configuration and the key that names the service.

use torut::onion::{OnionAddressV3, TorSecretKeyV3};
use vstd::prelude::*;
use crate::address::{decimal_text, port_text, COLON};
use crate::error::ConfigError;

verus! {

/// The key pair of an onion service, as the 64 bytes of its expanded secret
/// key. The public half, and with it the service's address, follow from it.
#[derive(Clone, Copy, PartialEq, Eq)]
pub struct OnionServiceKey {
    bytes: [u8; 64],
}

impl View for OnionServiceKey {
    type V = Seq<u8>;

    closed spec fn view(&self) -> Seq<u8> {
        self.bytes@
    }
}

/// What the service needs to start: where the daemon keeps its state, the
/// service's key, and the port that the application listens on, which is also
/// the port under which the service is reached.
#[derive(Clone, PartialEq, Eq)]
pub struct ServiceConfig {
    pub data_dir: String,
    pub onion_key: OnionServiceKey,
    pub listen_port: u16,
}

/// The text of the onion address, ending in `.onion`, that belongs to an
/// expanded secret key. It stands for the result of torut's derivation: the
/// Ed25519 public key of the secret key, its checksum and version byte, in
/// lower-case base32.
pub uninterp spec fn onion_address_text(secret: Seq<u8>) -> Seq<u8>;

/// A lower-case letter or a digit from 2 to 7: the digits of base32.
pub open spec fn is_base32_digit(b: u8) -> bool {
    0x61 <= b <= 0x7a || 0x32 <= b <= 0x37
}

/// The ending of an onion address, `.onion`.
pub open spec fn onion_suffix() -> Seq<u8> {
    seq![0x2eu8, 0x6fu8, 0x6eu8, 0x69u8, 0x6fu8, 0x6eu8]
}

/// The shape of the text of an onion address: 56 digits of base32, which
/// hold the 35 bytes of public key, checksum and version, then `.onion`.
pub open spec fn is_onion_address(text: Seq<u8>) -> bool {
    &&& text.len() == 62
    &&& forall|i: int| 0 <= i < 56 ==> is_base32_digit(#[trigger] text[i])
    &&& text.skip(56) == onion_suffix()
}

/// Derives the onion address of a secret key with torut: `TorSecretKeyV3::public`
/// gives the public key, `OnionAddressV3::from` the address of that public
/// key, and its `to_string` the text. The contract claims that the text
/// depends on the key's bytes alone, and that it has the shape in which
/// `to_string` writes every address: the 35 bytes of the address in
/// lower-case base32 without padding, then `.onion`.
#[verifier::external_body]
fn derive_onion_address(secret: &[u8; 64]) -> (text: Vec<u8>)
    ensures
        text@ == onion_address_text(secret@),
        is_onion_address(text@),
{
    let key = TorSecretKeyV3::from(*secret);
    OnionAddressV3::from(&key.public()).to_string().into_bytes()
}

/// Whether the bytes have the form that key expansion gives an expanded
/// secret key: 64 bytes, of which the first 32 are a clamped scalar, least
/// significant byte first. A clamped scalar is a multiple of eight and has,
/// of its two highest bits, the lower one set and the higher one clear.
pub open spec fn is_expanded_secret(secret: Seq<u8>) -> bool {
    &&& secret.len() == 64
    &&& secret[0] % 8 == 0
    &&& 64 <= secret[31] <= 127
}

/// Makes a fresh secret key with torut's `TorSecretKeyV3::generate`. It draws
/// an Ed25519 secret key at random and returns the bytes of its expanded
/// form, which ed25519-dalek's `ExpandedSecretKey::from` makes by hashing
/// the key and clamping the first half of the hash. The contract claims the
/// clamping and nothing else of the bytes.
#[verifier::external_body]
fn generate_secret() -> (secret: [u8; 64])
    ensures
        is_expanded_secret(secret@),
{
    TorSecretKeyV3::generate().into_bytes()
}

impl OnionServiceKey {
    /// The key with these bytes as its expanded secret key.
    pub fn from_bytes(bytes: [u8; 64]) -> (key: OnionServiceKey)
        ensures
            key@ == bytes@,
    {
        OnionServiceKey { bytes }
    }

    /// A key drawn at random. Which key it is cannot be said beforehand;
    /// what can is that its bytes have the form of an expanded secret key.
    pub fn generate() -> (key: OnionServiceKey)
        ensures
            is_expanded_secret(key@),
    {
        OnionServiceKey { bytes: generate_secret() }
    }

    /// The bytes of the expanded secret key.
    pub fn to_bytes(&self) -> (bytes: [u8; 64])
        ensures
            bytes@ == self@,
    {
        self.bytes
    }

    /// The public address of the service that this key names.
    pub fn public_address(&self) -> (text: Vec<u8>)
        ensures
            text@ == onion_address_text(self@),
            is_onion_address(text@),
    {
        derive_onion_address(&self.bytes)
    }
}

/// Two keys of the same bytes name the same address.
pub proof fn lemma_public_address_deterministic(first: OnionServiceKey, second: OnionServiceKey)
    requires
        first@ == second@,
    ensures
        onion_address_text(first@) == onion_address_text(second@),
{
}

/// The text under which a service is reached: its address, a colon, its port.
pub open spec fn endpoint_text(address: Seq<u8>, port: u16) -> Seq<u8> {
    address.push(COLON) + decimal_text(port as nat)
}

/// Joins an onion address and a port into the text under which the service
/// is reached.
pub fn join_endpoint(address: &Vec<u8>, port: u16) -> (text: Vec<u8>)
    ensures
        text@ == endpoint_text(address@, port),
{
    let mut text: Vec<u8> = address.clone();
    text.push(COLON);
    let mut digits = port_text(port);
    text.append(&mut digits);
    assert(text@ =~= endpoint_text(address@, port));
    text
}

/// The data directory of a configuration that was made afresh.
pub open spec fn default_data_dir() -> Seq<char> {
    "/tmp/tor-datadir"@
}

/// The listen port of a configuration that was made afresh.
pub const DEFAULT_LISTEN_PORT: u16 = 8000;

/// What the store of the configuration holds at startup.
#[derive(Clone, PartialEq, Eq)]
pub enum Stored {
    /// Nothing was stored yet.
    Absent,
    /// Something is stored that cannot be read as a configuration.
    Unreadable,
    /// This configuration is stored.
    Config(ServiceConfig),
}

/// A configuration as it is made on a first run: the default directory and
/// port, and a key of the form of an expanded secret key.
pub open spec fn is_first_configuration(config: ServiceConfig) -> bool {
    &&& config.data_dir@ == default_data_dir()
    &&& config.listen_port == DEFAULT_LISTEN_PORT
    &&& is_expanded_secret(config.onion_key@)
}

impl ServiceConfig {
    /// The configuration of a first run, around a given key.
    pub fn with_key(key: OnionServiceKey) -> (config: ServiceConfig)
        ensures
            config.data_dir@ == default_data_dir(),
            config.onion_key == key,
            config.listen_port == DEFAULT_LISTEN_PORT,
    {
        ServiceConfig {
            data_dir: String::from_str("/tmp/tor-datadir"),
            onion_key: key,
            listen_port: DEFAULT_LISTEN_PORT,
        }
    }

    /// Settles the configuration at startup. One that was stored is used as it
    /// is. Where none was stored a new one is made around a key drawn at
    /// random, and the flag says that it has to be stored.
    pub fn load_or_create(stored: Option<ServiceConfig>) -> (r: (ServiceConfig, bool))
        ensures
            match stored {
                Some(config) => r.0 == config && !r.1,
                None => is_first_configuration(r.0) && r.1,
            },
    {
        match stored {
            Some(config) => (config, false),
            None => (ServiceConfig::with_key(OnionServiceKey::generate()), true),
        }
    }

    /// Settles the configuration at startup from what the store holds. A
    /// configuration that was stored is used as it is. Only where nothing was
    /// stored is a new one made, around a key drawn at random, with the flag
    /// that says that it has to be stored. Where something is stored that
    /// cannot be read, there is no configuration: the key in it is not
    /// replaced.
    pub fn settle(stored: Stored) -> (r: Result<(ServiceConfig, bool), ConfigError>)
        ensures
            match stored {
                Stored::Config(config) => r == Ok::<(ServiceConfig, bool), ConfigError>(
                    (config, false),
                ),
                Stored::Absent => r matches Ok(made) && is_first_configuration(made.0) && made.1,
                Stored::Unreadable => r == Err::<(ServiceConfig, bool), ConfigError>(
                    ConfigError::Unreadable,
                ),
            },
    {
        match stored {
            Stored::Config(config) => Ok((config, false)),
            Stored::Absent => Ok(ServiceConfig::load_or_create(None)),
            Stored::Unreadable => Err(ConfigError::Unreadable),
        }
    }

    /// The text under which the service is reached from outside: the public
    /// address of its key, a colon, and the listen port.
    pub fn public_endpoint(&self) -> (text: Vec<u8>)
        ensures
            text@ == endpoint_text(onion_address_text(self.onion_key@), self.listen_port),
    {
        let address = self.onion_key.public_address();
        join_endpoint(&address, self.listen_port)
    }
}

} // verus!
