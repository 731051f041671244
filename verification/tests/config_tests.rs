use onion_bootstrap::config::{
    join_endpoint, OnionServiceKey, ServiceConfig, Stored, DEFAULT_LISTEN_PORT,
};
use onion_bootstrap::error::ConfigError;
use onion_bootstrap::hello;
use onion_bootstrap::supervisor::{launch_flags, log_path, LaunchFlag, LogLevel};
use torut::onion::{OnionAddressV3, TorSecretKeyV3};

fn counting_secret() -> [u8; 64] {
    let mut bytes = [0u8; 64];
    for (i, byte) in bytes.iter_mut().enumerate() {
        *byte = i as u8;
    }
    bytes
}

const EXPANDED_SECRET: [u8; 64] = [
    53, 124, 131, 134, 79, 40, 51, 203, 66, 122, 46, 241, 192, 10, 1, 60, 253, 255, 39, 104, 217,
    128, 192, 163, 165, 32, 240, 6, 144, 77, 233, 15, 155, 79, 10, 254, 40, 11, 116, 106, 119, 134,
    132, 231, 84, 66, 80, 32, 87, 183, 71, 58, 3, 240, 143, 150, 245, 163, 142, 146, 135, 224, 31,
    143,
];

#[test]
fn greeting_is_hello_world() {
    assert_eq!(hello(), "Hello World!");
}

#[test]
fn public_address_of_known_keys() {
    let key = OnionServiceKey::from_bytes(EXPANDED_SECRET);
    assert_eq!(
        key.public_address(),
        b"25njqamcweflpvkl73j4szahhihoc4xt3ktcgjnpaingr5yhkenl5sid.onion".to_vec()
    );
    let key = OnionServiceKey::from_bytes(counting_secret());
    assert_eq!(
        key.public_address(),
        b"dlaql2qui4unuxv6uapf5z25obme6hz42reld3d4fpo5up55d4hmhoyd.onion".to_vec()
    );
}

#[test]
fn public_address_is_the_same_each_time() {
    let first = OnionServiceKey::from_bytes(counting_secret());
    let second = OnionServiceKey::from_bytes(counting_secret());
    let address = first.public_address();
    assert_eq!(first.public_address(), address);
    assert_eq!(second.public_address(), address);
    let fresh = OnionServiceKey::generate();
    let copy = OnionServiceKey::from_bytes(fresh.to_bytes());
    assert_eq!(fresh.public_address(), copy.public_address());
}

#[test]
fn public_address_is_what_the_key_derives() {
    for _ in 0..8 {
        let key = OnionServiceKey::generate();
        let secret = TorSecretKeyV3::from(key.to_bytes());
        let expected = OnionAddressV3::from(&secret.public()).to_string();
        let address = key.public_address();
        assert_eq!(address, expected.into_bytes());
        assert_eq!(address.len(), 62);
        assert!(address.ends_with(b".onion"));
    }
}

#[test]
fn different_keys_have_different_addresses() {
    let first = OnionServiceKey::from_bytes(counting_secret());
    let second = OnionServiceKey::from_bytes(EXPANDED_SECRET);
    assert!(first.public_address() != second.public_address());
}

#[test]
fn generated_keys_are_fresh() {
    let first = OnionServiceKey::generate();
    let second = OnionServiceKey::generate();
    assert!(first.to_bytes() != second.to_bytes());
}

#[test]
fn generated_keys_are_expanded_secrets() {
    for _ in 0..64 {
        let bytes = OnionServiceKey::generate().to_bytes();
        assert_eq!(bytes.len(), 64);
        assert_eq!(bytes[0] % 8, 0);
        assert!(64 <= bytes[31] && bytes[31] <= 127);
    }
}

#[test]
fn key_keeps_its_bytes() {
    assert_eq!(OnionServiceKey::from_bytes(counting_secret()).to_bytes(), counting_secret());
}

#[test]
fn endpoint_is_address_colon_port() {
    assert_eq!(join_endpoint(&b"abc.onion".to_vec(), 80), b"abc.onion:80".to_vec());
    assert_eq!(join_endpoint(&Vec::new(), 0), b":0".to_vec());
    let config = ServiceConfig {
        data_dir: String::from("/var/lib/service"),
        onion_key: OnionServiceKey::from_bytes(EXPANDED_SECRET),
        listen_port: 8000,
    };
    assert_eq!(
        config.public_endpoint(),
        b"25njqamcweflpvkl73j4szahhihoc4xt3ktcgjnpaingr5yhkenl5sid.onion:8000".to_vec()
    );
}

#[test]
fn first_configuration_has_the_defaults() {
    let key = OnionServiceKey::from_bytes(counting_secret());
    let config = ServiceConfig::with_key(key);
    assert_eq!(config.data_dir, "/tmp/tor-datadir");
    assert_eq!(config.listen_port, 8000);
    assert_eq!(DEFAULT_LISTEN_PORT, 8000);
    assert!(config.onion_key == key);
}

#[test]
fn stored_configuration_is_used_as_it_is() {
    let stored = ServiceConfig {
        data_dir: String::from("/srv/tor"),
        onion_key: OnionServiceKey::from_bytes(EXPANDED_SECRET),
        listen_port: 4321,
    };
    let (config, store) = ServiceConfig::load_or_create(Some(stored.clone()));
    assert!(config == stored);
    assert!(!store);
}

#[test]
fn missing_configuration_is_made_and_stored() {
    let (config, store) = ServiceConfig::load_or_create(None);
    assert!(store);
    assert_eq!(config.data_dir, "/tmp/tor-datadir");
    assert_eq!(config.listen_port, 8000);
    let (other, _) = ServiceConfig::load_or_create(None);
    assert!(config.onion_key != other.onion_key);
}

#[test]
fn daemon_is_launched_with_six_parameters() {
    let flags = launch_flags("/tmp/tor-datadir", "16:0123");
    assert_eq!(
        flags,
        vec![
            LaunchFlag::DataDirectory(String::from("/tmp/tor-datadir")),
            LaunchFlag::LogToFile {
                level: LogLevel::Notice,
                path: String::from("/tmp/tor-datadir/log.txt"),
            },
            LaunchFlag::ControlPortAuto,
            LaunchFlag::ControlPortWriteToFile(String::from("/tmp/tor-datadir/control-port.txt")),
            LaunchFlag::HashedControlPassword(String::from("16:0123")),
            LaunchFlag::SocksPortAuto,
        ]
    );
}

#[test]
fn log_file_is_in_the_data_directory() {
    assert_eq!(log_path("/tmp/tor-datadir"), "/tmp/tor-datadir/log.txt");
    assert_eq!(log_path(""), "/log.txt");
}

fn has_address_shape(address: &[u8]) -> bool {
    address.len() == 62
        && address[..56].iter().all(|b| b.is_ascii_lowercase() || (b'2'..=b'7').contains(b))
        && &address[56..] == b".onion"
}

#[test]
fn public_address_has_the_shape_of_an_onion_address() {
    assert!(has_address_shape(&OnionServiceKey::from_bytes([0u8; 64]).public_address()));
    assert!(has_address_shape(&OnionServiceKey::from_bytes([255u8; 64]).public_address()));
    assert!(has_address_shape(&OnionServiceKey::from_bytes(counting_secret()).public_address()));
    for _ in 0..16 {
        assert!(has_address_shape(&OnionServiceKey::generate().public_address()));
    }
}

#[test]
fn new_configuration_has_an_expanded_secret() {
    for _ in 0..16 {
        let (config, _) = ServiceConfig::load_or_create(None);
        let bytes = config.onion_key.to_bytes();
        assert_eq!(bytes[0] % 8, 0);
        assert!(64 <= bytes[31] && bytes[31] <= 127);
    }
}

#[test]
fn settle_uses_what_is_stored() {
    let stored = ServiceConfig {
        data_dir: String::from("/srv/tor"),
        onion_key: OnionServiceKey::from_bytes(EXPANDED_SECRET),
        listen_port: 4321,
    };
    let settled = ServiceConfig::settle(Stored::Config(stored.clone()));
    assert!(settled == Ok((stored, false)));
}

#[test]
fn settle_makes_a_configuration_where_none_is_stored() {
    let (config, store) = match ServiceConfig::settle(Stored::Absent) {
        Ok(made) => made,
        Err(_) => panic!("no configuration was made"),
    };
    assert!(store);
    assert_eq!(config.data_dir, "/tmp/tor-datadir");
    assert_eq!(config.listen_port, 8000);
    let bytes = config.onion_key.to_bytes();
    assert_eq!(bytes[0] % 8, 0);
    assert!(64 <= bytes[31] && bytes[31] <= 127);
}

#[test]
fn settle_makes_no_key_where_the_store_cannot_be_read() {
    assert!(ServiceConfig::settle(Stored::Unreadable) == Err(ConfigError::Unreadable));
}
