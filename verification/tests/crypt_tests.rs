use foggychat::crypt::asymmetric;
use foggychat::crypt::symmetric;
use foggychat::crypt::utils::{base64_decode, base64_encode};

#[test]
fn lib_symmetric() {
    let key = symmetric::keygen();

    match symmetric::encrypt("test", &key) {
        Ok(encrypted) => {
            println!("Encrypted: {}", encrypted);

            match symmetric::decrypt(&encrypted, &key) {
                Ok(decrypted) => println!("Decrypted: {}", decrypted),
                Err(e) => println!("Decryption error: {}", e),
            }
        }
        Err(e) => println!("Encryption error: {:?}", e),
    }
}

#[test]
fn lib_asymmetric() {
    let (rec_sec, rec_pub) = asymmetric::generate_keypair();
    match asymmetric::encrypt(&rec_pub, "test".as_bytes()) {
        Ok(encrypted) => match asymmetric::decrypt(&rec_sec, &encrypted) {
            Ok(decrypted) => println!("Decrypted: {}", String::from_utf8_lossy(&decrypted)),
            Err(e) => println!("Decryption error: {}", e),
        },
        Err(e) => println!("Encryption error: {}", e),
    }
}

#[test]
fn main_symmetric() {
    let key = symmetric::keygen();

    match symmetric::encrypt_message("test", &key) {
        Ok(encrypted) => {
            println!("Encrypted: {}", encrypted);

            match symmetric::decrypt_message(&encrypted, &key) {
                Ok(decrypted) => println!("Decrypted: {}", decrypted),
                Err(e) => println!("Decryption error: {}", e),
            }
        }
        Err(e) => println!("Encryption error: {:?}", e),
    }
}

#[test]
fn main_asymmetric() {
    let (rec_sec, rec_pub) = asymmetric::generate_keypair();
    match asymmetric::encrypt(&rec_pub, "test".as_bytes()) {
        Ok(encrypted) => match asymmetric::decrypt(&rec_sec, &encrypted) {
            Ok(decrypted) => println!("Decrypted: {}", String::from_utf8_lossy(&decrypted)),
            Err(e) => println!("Decryption error: {}", e),
        },
        Err(e) => println!("Encryption error: {}", e),
    }
}

#[test]
fn symmetric_encryption_roundtrip() {
    let random_key = symmetric::keygen();

    let msg = "TEST TEST TEST 123 ąęðąśðąśðąś";

    let encrypted_message = symmetric::encrypt(msg, &random_key).unwrap();
    let decrypted_message = symmetric::decrypt(&encrypted_message, &random_key).unwrap();

    println!("Encrypted message: {}", encrypted_message);
    println!("Decrypted message: {}", decrypted_message);
    println!("Key: {}", base64_encode(&random_key));
    assert_eq!(decrypted_message, msg);
}

#[test]
fn test_symmetric_encryption() {
    let key = symmetric::keygen();
    let plaintext = "test message";

    let encrypted = symmetric::encrypt_binary(plaintext, &key).expect("Encryption should succeed");
    let decrypted = symmetric::decrypt_binary(&encrypted, &key).expect("Decryption should succeed");

    assert_eq!(String::from_utf8_lossy(&decrypted), plaintext);
}

#[test]
fn test_asymmetric_encryption() {
    let (rec_sec, rec_pub) = asymmetric::generate_keypair();
    let plaintext = b"test message";

    let encrypted = asymmetric::encrypt(&rec_pub, plaintext).expect("Encryption should succeed");
    let decrypted = asymmetric::decrypt(&rec_sec, &encrypted).expect("Decryption should succeed");

    assert_eq!(&decrypted[..], plaintext);
}

#[test]
fn keypair_and_crypto_roundtrip() {
    let (rec_sec, rec_pub) = asymmetric::generate_keypair();

    let msg = b"Test wiadomosc";

    let encrypted = asymmetric::encrypt(&rec_pub, msg).expect("Encryption failed");
    let decrypted = asymmetric::decrypt(&rec_sec, &encrypted).expect("Decryption failed");

    assert_eq!(&decrypted, msg);
}

#[test]
fn text_form_has_two_base64_parts() {
    let key = symmetric::keygen();
    let text = symmetric::encrypt("hello", &key).unwrap();
    let parts: Vec<&str> = text.split("::").collect();
    assert_eq!(parts.len(), 2);
    assert_eq!(base64_decode(parts[1]).unwrap().len(), 12);
    // ciphertext is the plaintext and the 16-byte tag
    assert_eq!(base64_decode(parts[0]).unwrap().len(), 5 + 16);
}

#[test]
fn text_form_errors() {
    let key = symmetric::keygen();
    assert_eq!(symmetric::decrypt("no divider here", &key).unwrap_err(), "Invalid encrypted format");
    assert_eq!(symmetric::decrypt("a::b::c", &key).unwrap_err(), "Invalid encrypted format");
    let nonce = base64_encode(&[0u8; 12]);
    let forged = format!("{}::{}", base64_encode(&[1u8; 20]), nonce);
    assert_eq!(symmetric::decrypt(&forged, &key).unwrap_err(), "Decryption failed: Error");
    let other = symmetric::keygen();
    let sealed = symmetric::encrypt("secret", &key).unwrap();
    assert_eq!(symmetric::decrypt(&sealed, &other).unwrap_err(), "Decryption failed: Error");
    assert!(symmetric::decrypt("!!!::AAAA", &key).is_err());
}

#[test]
fn text_form_nonce_length_is_checked() {
    let key = symmetric::keygen();
    let short_nonce = format!("{}::{}", base64_encode(&[1u8; 20]), base64_encode(&[0u8; 8]));
    assert!(symmetric::try_decrypt(&short_nonce, &key).is_none());
    let sealed = symmetric::encrypt("fine", &key).unwrap();
    assert_eq!(symmetric::try_decrypt(&sealed, &key).unwrap().unwrap(), "fine");
}

#[test]
fn binary_frame_layout_and_errors() {
    let key = symmetric::keygen();
    let frame = symmetric::encrypt_binary("abc", &key).unwrap();
    // length of the ciphertext, big-endian: 3 bytes and the 16-byte tag
    assert_eq!(&frame[0..4], &[0, 0, 0, 19]);
    assert_eq!(frame.len(), 4 + 19 + 12);
    assert_eq!(symmetric::decrypt_binary(&frame[..10], &key).unwrap_err(), "Data too short");
    let mut truncated = frame.clone();
    truncated.truncate(20);
    assert_eq!(symmetric::decrypt_binary(&truncated, &key).unwrap_err(), "Data length mismatch");
    let mut tampered = frame.clone();
    tampered[5] ^= 1;
    assert_eq!(symmetric::decrypt_binary(&tampered, &key).unwrap_err(), "Decryption failed: Error");
}

#[test]
fn binary_frame_with_fixed_nonce() {
    let key = [7u8; 32];
    let nonce = [9u8; 12];
    let a = symmetric::encrypt_binary_with_nonce("same", &key, &nonce).unwrap();
    let b = symmetric::encrypt_binary_with_nonce("same", &key, &nonce).unwrap();
    assert_eq!(a, b);
    assert_eq!(&a[a.len() - 12..], &nonce);
    assert_eq!(symmetric::decrypt_binary(&a, &key).unwrap(), b"same".to_vec());
}

#[test]
fn asymmetric_errors() {
    let (sec, _) = asymmetric::generate_keypair();
    assert_eq!(asymmetric::decrypt(&sec, &[1u8; 10]).unwrap_err(), "Message too short");
    let mut msg = vec![2u8; 60];
    msg[0] = 2;
    assert_eq!(asymmetric::decrypt(&sec, &msg).unwrap_err(), "Unsupported version: 2");
    let (_, other_pub) = asymmetric::generate_keypair();
    let sealed = asymmetric::encrypt(&other_pub, b"hi").unwrap();
    assert_eq!(asymmetric::decrypt(&sec, &sealed).unwrap_err(), "Decrypt error: Error");
    assert_eq!(sealed.len(), 2 + 73);
    assert_eq!(sealed[0], asymmetric::VERSION);
}

#[test]
fn asymmetric_with_fixed_ephemeral_is_deterministic() {
    let (sec, public) = asymmetric::generate_keypair();
    let eph = [5u8; 32];
    let nonce = [6u8; 24];
    let a = asymmetric::encrypt_with(&public, b"payload", &eph, &nonce).unwrap();
    let b = asymmetric::encrypt_with(&public, b"payload", &eph, &nonce).unwrap();
    assert_eq!(a, b);
    assert_eq!(&a[33..57], &nonce);
    assert_eq!(asymmetric::decrypt(&sec, &a).unwrap(), b"payload".to_vec());
}

#[test]
fn derive_key_depends_on_secret() {
    let a = asymmetric::derive_key(&[1u8; 32]);
    let b = asymmetric::derive_key(&[2u8; 32]);
    assert_ne!(a, b);
    assert_eq!(a, asymmetric::derive_key(&[1u8; 32]));
}

#[test]
fn base64_known_values() {
    assert_eq!(base64_encode(b"hello"), "aGVsbG8=");
    assert_eq!(base64_decode("aGVsbG8=").unwrap(), b"hello".to_vec());
    assert!(base64_decode("a").is_err());
}

#[test]
fn base64_text_has_four_characters_per_three_bytes() {
    for n in 0..20usize {
        let bytes = vec![0xabu8; n];
        assert_eq!(base64_encode(&bytes).len(), 4 * ((n + 2) / 3));
    }
}
