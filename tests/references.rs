use wassette::reference::{component_id, parse_reference, ComponentReference, ReferenceError};

#[test]
fn file_reference_and_id() {
    let r = parse_reference("file:///tmp/fetch.wasm").unwrap();
    assert_eq!(r, ComponentReference::File { path: "/tmp/fetch.wasm".to_string() });
    assert_eq!(component_id(&r), "fetch");
}

#[test]
fn https_reference_and_id() {
    let r = parse_reference("https://example.com/components/Time-Server.v2.wasm").unwrap();
    assert_eq!(
        r,
        ComponentReference::Https { url: "https://example.com/components/Time-Server.v2.wasm".to_string() }
    );
    assert_eq!(component_id(&r), "time-server_v2");
}

#[test]
fn oci_reference_with_tag() {
    let r = parse_reference("oci://reg/x/qr:v1").unwrap();
    assert_eq!(
        r,
        ComponentReference::Oci {
            registry: "reg".to_string(),
            repository: "x/qr".to_string(),
            reference: "v1".to_string(),
        }
    );
    assert_eq!(component_id(&r), "x_qr");
}

#[test]
fn oci_reference_with_digest_port_and_default_tag() {
    let r = parse_reference("oci://localhost:5000/fetch@sha256:abc").unwrap();
    assert_eq!(
        r,
        ComponentReference::Oci {
            registry: "localhost:5000".to_string(),
            repository: "fetch".to_string(),
            reference: "sha256:abc".to_string(),
        }
    );
    assert_eq!(component_id(&r), "fetch");
    let r = parse_reference("oci://ghcr.io/microsoft/get-weather-js").unwrap();
    match &r {
        ComponentReference::Oci { reference, .. } => assert_eq!(reference, "latest"),
        _ => panic!("expected an OCI reference"),
    }
    assert_eq!(component_id(&r), "microsoft_get-weather-js");
}

#[test]
fn rejected_references() {
    assert_eq!(
        parse_reference("ftp://x/y"),
        Err(ReferenceError::UnsupportedScheme { reference: "ftp://x/y".to_string() })
    );
    assert_eq!(
        parse_reference("http://x/y.wasm"),
        Err(ReferenceError::UnsupportedScheme { reference: "http://x/y.wasm".to_string() })
    );
    assert_eq!(
        parse_reference("file://"),
        Err(ReferenceError::InvalidReference { reference: "file://".to_string() })
    );
    assert_eq!(
        parse_reference("oci://registry-only"),
        Err(ReferenceError::InvalidReference { reference: "oci://registry-only".to_string() })
    );
    assert_eq!(
        parse_reference("oci://reg/repo:"),
        Err(ReferenceError::InvalidReference { reference: "oci://reg/repo:".to_string() })
    );
}
