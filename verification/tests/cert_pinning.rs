use tonic_lnd::CertVerificationError;
use tonic_lnd::CertVerifier;
use tonic_lnd::ConnectError;

// One certificate section whose DER bytes are [1, 2, 3].
const ONE_CERT_PEM: &str = "-----BEGIN CERTIFICATE-----\nAQID\n-----END CERTIFICATE-----\n";

// Two certificate sections: [1, 2, 3] and [4, 5, 6].
const TWO_CERT_PEM: &str = "-----BEGIN CERTIFICATE-----\nAQID\n-----END CERTIFICATE-----\n\
-----BEGIN CERTIFICATE-----\nBAUG\n-----END CERTIFICATE-----\n";

// A certificate section whose body is not base64.
const BAD_PEM: &str = "-----BEGIN CERTIFICATE-----\n!!!\n-----END CERTIFICATE-----\n";

fn load_one() -> CertVerifier {
    CertVerifier::load_from_pem("tls.cert".to_string(), &ONE_CERT_PEM.as_bytes().to_vec()).unwrap()
}

#[test]
fn load_accepts_exactly_one_certificate() {
    let verifier = load_one();
    assert_eq!(verifier.pinned_der(), &vec![1u8, 2, 3]);
}

#[test]
fn load_rejects_empty_certificate_file() {
    let result = CertVerifier::load_from_pem("tls.cert".to_string(), &Vec::new());
    match result {
        Err(ConnectError::InvalidCertCount { file, expected, actual }) => {
            assert_eq!(file, "tls.cert");
            assert_eq!(expected, 1);
            assert_eq!(actual, 0);
        }
        other => panic!("expected InvalidCertCount, got {:?}", other),
    }
}

#[test]
fn load_rejects_two_certificates_with_exact_count() {
    let result =
        CertVerifier::load_from_pem("tls.cert".to_string(), &TWO_CERT_PEM.as_bytes().to_vec());
    match result {
        Err(ConnectError::InvalidCertCount { file, expected, actual }) => {
            assert_eq!(file, "tls.cert");
            assert_eq!(expected, 1);
            assert_eq!(actual, 2);
        }
        other => panic!("expected InvalidCertCount, got {:?}", other),
    }
}

#[test]
fn load_reports_parse_failure() {
    let result = CertVerifier::load_from_pem("tls.cert".to_string(), &BAD_PEM.as_bytes().to_vec());
    match result {
        Err(ConnectError::ParseCert { file, cause }) => {
            assert_eq!(file, "tls.cert");
            assert!(!cause.is_empty());
        }
        other => panic!("expected ParseCert, got {:?}", other),
    }
}

#[test]
fn verify_accepts_byte_identical_certificate() {
    let verifier = load_one();
    assert_eq!(verifier.verify_server_cert(&vec![vec![1u8, 2, 3]]), Ok(()));
}

#[test]
fn verify_rejects_different_certificate() {
    let verifier = load_one();
    assert_eq!(
        verifier.verify_server_cert(&vec![vec![9u8, 9, 9]]),
        Err(CertVerificationError::CertMismatch)
    );
}

#[test]
fn verify_rejects_longer_certificate() {
    let verifier = load_one();
    assert_eq!(
        verifier.verify_server_cert(&vec![vec![1u8, 2, 3, 4]]),
        Err(CertVerificationError::CertMismatch)
    );
}

#[test]
fn verify_rejects_chain_of_two_even_if_pinned_is_among_them() {
    let verifier = load_one();
    assert_eq!(
        verifier.verify_server_cert(&vec![vec![1u8, 2, 3], vec![1u8, 2, 3]]),
        Err(CertVerificationError::TooManyCertificates { presented: 2 })
    );
}

#[test]
fn verify_rejects_empty_chain() {
    let verifier = load_one();
    assert_eq!(
        verifier.verify_server_cert(&Vec::new()),
        Err(CertVerificationError::TooManyCertificates { presented: 0 })
    );
}
