//! File classification, path checking, and the error message catalogue.

use aqua_chain::files::{detect_file_type_by_signature, get_content_type, path_is_valid};
use aqua_chain::models::SiweError;

#[test]
fn content_type_by_extension() {
    assert_eq!(get_content_type("photo.jpg").unwrap(), "image/jpeg");
    assert_eq!(get_content_type("photo.jpeg").unwrap(), "image/jpeg");
    assert_eq!(get_content_type("archive.zip").unwrap(), "application/zip");
    assert_eq!(get_content_type("notes.txt").unwrap(), "text/plain");
    assert_eq!(get_content_type("a.b.json").unwrap(), "application/json");
    assert!(get_content_type("unknown.xyz").is_none());
    assert!(get_content_type("no_extension").is_none());
    assert!(get_content_type(".hidden").is_none());
}

#[test]
fn file_type_by_signature() {
    let (t, m) = detect_file_type_by_signature(&[0xFF, 0xD8, 0xFF, 0x00]).unwrap();
    assert_eq!(t, "JPEG");
    assert_eq!(m, "image/jpeg");
    let (t, m) = detect_file_type_by_signature(&[0x89, 0x50, 0x4E, 0x47, 0x0D]).unwrap();
    assert_eq!(t, "PNG");
    assert_eq!(m, "image/png");
    let (t, _) = detect_file_type_by_signature(b"%PDF-1.7").unwrap();
    assert_eq!(t, "PDF");
    let (t, m) = detect_file_type_by_signature(b"{\"a\":1}").unwrap();
    assert_eq!(t, "JSON");
    assert_eq!(m, "application/json");
    let (t, _) = detect_file_type_by_signature(b"<?xml version=\"1.0\"?>").unwrap();
    assert_eq!(t, "XML");
    assert!(detect_file_type_by_signature(b"plain text").is_none());
    assert!(detect_file_type_by_signature(b"").is_none());
}

#[test]
fn path_validity() {
    assert!(path_is_valid("file.txt"));
    assert!(path_is_valid("file"));
    assert!(!path_is_valid(""));
    assert!(!path_is_valid("."));
    assert!(!path_is_valid(".."));
    assert!(!path_is_valid("a/b"));
    assert!(!path_is_valid("/etc"));
    assert!(!path_is_valid("..\\up"));
}

#[test]
fn siwe_error_messages() {
    assert_eq!(SiweError::InvalidSignature.message(), "Invalid signature");
    assert_eq!(
        SiweError::VerificationFailed.message(),
        "Failed to verify SIWE message"
    );
    assert_eq!(
        SiweError::AddressMismatch.message(),
        "Ethereum address mismatch"
    );
    assert_eq!(SiweError::InvalidMessage.message(), "Invalid SIWE Message");
    assert_eq!(
        SiweError::MessageVerificationFailed.message(),
        "Message verification failed"
    );
}
