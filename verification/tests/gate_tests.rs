use aes_gcm::aead::{Aead, KeyInit};
use aes_gcm::{Aes256Gcm, Nonce};
use intel_registry::gate::{ArgusContentGate, Error};

fn encrypt(key: &[u8; 32], nonce: &[u8; 12], plaintext: &[u8]) -> Vec<u8> {
    let cipher = Aes256Gcm::new_from_slice(key).unwrap();
    let ciphertext = cipher.encrypt(Nonce::from_slice(nonce), plaintext).unwrap();
    let mut encrypted = Vec::new();
    encrypted.extend_from_slice(nonce);
    encrypted.extend_from_slice(&ciphertext);
    encrypted
}

#[test]
fn new_works() {
    let contract = ArgusContentGate::new("admin".to_string());
    assert_eq!(contract.has_list("test".into()), false);
}

#[test]
fn register_list_works() {
    let mut contract = ArgusContentGate::new("admin".to_string());
    let key = [0u8; 32];
    assert!(contract.register_list("admin".to_string(), "list1".into(), key).is_ok());
    assert!(contract.has_list("list1".into()));
}

#[test]
fn decrypt_works() {
    let contract = ArgusContentGate::new("admin".to_string());

    let key = [0u8; 32];
    let nonce = [1u8; 12];
    let plaintext = b"Hello, World!";
    let encrypted = encrypt(&key, &nonce, plaintext);

    let result = contract.decrypt_aes_gcm(&key, &encrypted);
    assert!(result.is_ok());
    assert_eq!(result.unwrap(), plaintext);
}

#[test]
fn decrypt_rejects_short_and_tampered_data() {
    let contract = ArgusContentGate::new("admin".to_string());
    let key = [0u8; 32];

    assert_eq!(contract.decrypt_aes_gcm(&key, &[0u8; 27]).unwrap_err(), Error::DecryptionFailed);

    let mut encrypted = encrypt(&key, &[1u8; 12], b"secret payload");
    let last = encrypted.len() - 1;
    encrypted[last] ^= 0xff;
    assert_eq!(contract.decrypt_aes_gcm(&key, &encrypted).unwrap_err(), Error::DecryptionFailed);
}

#[test]
fn only_admin_manages_the_gate() {
    let mut contract = ArgusContentGate::new("admin".to_string());
    let key = [7u8; 32];
    assert_eq!(
        contract.register_list("mallory".to_string(), "list1".into(), key).unwrap_err(),
        Error::Unauthorized
    );
    assert_eq!(
        contract.set_near_rpc("mallory".to_string(), "http://x".to_string()).unwrap_err(),
        Error::Unauthorized
    );
    assert_eq!(
        contract.set_nft_contract("mallory".to_string(), "c".to_string()).unwrap_err(),
        Error::Unauthorized
    );
    assert_eq!(
        contract.transfer_admin("mallory".to_string(), "mallory".to_string()).unwrap_err(),
        Error::Unauthorized
    );

    contract.transfer_admin("admin".to_string(), "new-admin".to_string()).unwrap();
    assert_eq!(contract.get_admin(), "new-admin");
    assert!(contract.register_list("new-admin".to_string(), "list1".into(), key).is_ok());
}

#[test]
fn decrypt_for_verified_gates_on_access_and_key() {
    let mut contract = ArgusContentGate::new("admin".to_string());
    let key = [9u8; 32];
    contract.register_list("admin".to_string(), "list1".into(), key).unwrap();

    let encrypted = encrypt(&key, &[2u8; 12], b"member content");

    assert_eq!(
        contract.decrypt_for_verified("list1".into(), false, &encrypted).unwrap_err(),
        Error::NoAccess
    );
    assert_eq!(
        contract.decrypt_for_verified("other".into(), true, &encrypted).unwrap_err(),
        Error::ListNotFound
    );
    assert_eq!(
        contract.decrypt_for_verified("list1".into(), true, &encrypted).unwrap(),
        b"member content".to_vec()
    );
}

#[test]
fn signature_format_is_checked() {
    assert!(ArgusContentGate::check_signature_format(&vec![0u8; 64]).is_ok());
    assert_eq!(
        ArgusContentGate::check_signature_format(&vec![0u8; 63]).unwrap_err(),
        Error::InvalidSignature
    );
}

#[test]
fn access_response_parsing() {
    let grant = b"{\"jsonrpc\":\"2.0\",\"result\":{\"result\":[100,72,74,49,90,81]} dHJ1ZQ}".to_vec();
    let deny = b"{\"jsonrpc\":\"2.0\",\"result\":{\"result\":[]}}".to_vec();
    let plain_true = b"{\"result\": true}".to_vec();
    let malformed = b"{\"jsonrpc\":\"2.0\",\"error\":\"boom\"}".to_vec();

    assert_eq!(
        intel_registry::gate::parse_access_response(500, &grant).unwrap_err(),
        Error::HttpError
    );
    assert_eq!(
        intel_registry::gate::parse_access_response(200, &malformed).unwrap_err(),
        Error::InvalidNearResponse
    );
    assert_eq!(intel_registry::gate::parse_access_response(200, &grant).unwrap(), true);
    assert_eq!(intel_registry::gate::parse_access_response(200, &deny).unwrap(), false);
    assert_eq!(intel_registry::gate::parse_access_response(200, &plain_true).unwrap(), true);
}

#[test]
fn byte_search_finds_exact_occurrences() {
    let hay = b"abc result abcab".to_vec();
    assert!(intel_registry::gate::bytes_contain_exec(&hay, &b"result".to_vec()));
    assert!(intel_registry::gate::bytes_contain_exec(&hay, &b"abcab".to_vec()));
    assert!(!intel_registry::gate::bytes_contain_exec(&hay, &b"resume".to_vec()));
    assert!(intel_registry::gate::bytes_contain_exec(&hay, &Vec::new()));
    assert!(!intel_registry::gate::bytes_contain_exec(&b"ab".to_vec(), &b"abc".to_vec()));
}
