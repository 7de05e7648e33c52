use rurl::tls::{
    configure_connector, get_default_tls_protocol, get_tls_protocol_version,
    minimum_tls_version, tls_connector, TlsVersion,
};

#[test]
fn tls_versions_by_name() {
    assert_eq!(get_tls_protocol_version("1.0"), Some(TlsVersion::Tls10));
    assert_eq!(get_tls_protocol_version("1.1"), Some(TlsVersion::Tls11));
    assert_eq!(get_tls_protocol_version("1.2"), Some(TlsVersion::Tls12));
    assert_eq!(get_tls_protocol_version(" 1.2\t"), Some(TlsVersion::Tls12));
    assert_eq!(get_tls_protocol_version("1.3"), None);
    assert_eq!(get_tls_protocol_version("2.0"), None);
    assert_eq!(get_tls_protocol_version(""), None);
    assert_eq!(get_tls_protocol_version("1.22"), None);
    assert_eq!(get_tls_protocol_version("1. 2"), None);
}

#[test]
fn tls_default_is_1_2() {
    assert_eq!(get_default_tls_protocol(), Some(TlsVersion::Tls12));
}

#[test]
fn tls_minimum_takes_the_override_first() {
    assert_eq!(minimum_tls_version(&None), Some(TlsVersion::Tls12));
    assert_eq!(minimum_tls_version(&Some("1.0".to_string())), Some(TlsVersion::Tls10));
    assert_eq!(minimum_tls_version(&Some("1.1".to_string())), Some(TlsVersion::Tls11));
    assert_eq!(minimum_tls_version(&Some("1.2".to_string())), Some(TlsVersion::Tls12));
    assert_eq!(minimum_tls_version(&Some("junk".to_string())), Some(TlsVersion::Tls12));
}

#[test]
fn tls_1_3_sets_no_minimum() {
    assert_eq!(minimum_tls_version(&Some("1.3".to_string())), None);
    assert_eq!(minimum_tls_version(&Some(" 1.3\n".to_string())), None);
    assert_eq!(minimum_tls_version(&Some("1.30".to_string())), Some(TlsVersion::Tls12));
}

#[test]
fn connector_is_built() {
    let builder = configure_connector(&Some("1.1".to_string()));
    assert!(builder.build().is_ok());
    assert!(tls_connector(&None).is_ok());
    assert!(tls_connector(&Some("1.3".to_string())).is_ok());
}
