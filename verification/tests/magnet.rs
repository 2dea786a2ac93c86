use muuf::magnet::{get_info_hash_from_magnet, MagnetError};

#[test]
fn base32_hash_is_decoded_to_hex() {
    let magnet = "magnet:?xt=urn:btih:AAAQEAYEAUDAOCAJBIFQYDIOB4IBCEQT&dn=x";
    assert_eq!(
        get_info_hash_from_magnet(magnet).unwrap(),
        "000102030405060708090a0b0c0d0e0f10111213"
    );
}

#[test]
fn hex_hash_is_lower_cased() {
    let magnet = "magnet:?xt=urn:btih:0123456789ABCDEF0123456789ABCDEF01234567";
    assert_eq!(
        get_info_hash_from_magnet(magnet).unwrap(),
        "0123456789abcdef0123456789abcdef01234567"
    );
}

#[test]
fn missing_exact_topic_is_an_error() {
    assert_eq!(
        get_info_hash_from_magnet("https://example.invalid/a"),
        Err(MagnetError::UnsupportedScheme)
    );
}

#[test]
fn non_btih_hash_type_is_an_error() {
    assert_eq!(
        get_info_hash_from_magnet("magnet:?xt=urn:sha1:ABCDEFGH"),
        Err(MagnetError::UnsupportedHashType)
    );
}

#[test]
fn wrong_hash_length_is_an_error() {
    assert_eq!(
        get_info_hash_from_magnet("magnet:?xt=urn:btih:ABCDEF"),
        Err(MagnetError::InvalidHashLength(6))
    );
}

#[test]
fn malformed_base32_is_an_error() {
    let magnet = "magnet:?xt=urn:btih:11111111111111111111111111111111";
    assert_eq!(get_info_hash_from_magnet(magnet), Err(MagnetError::DecodeFailed));
}
