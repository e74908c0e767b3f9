use base64::engine::general_purpose::STANDARD;
use base64::{DecodeError, Engine};
use localchat::crypto::{
    accept_opened, begin_key_exchange, fits_line, perform_key_exchange, read_key, CryptoSession,
    KeyExchange, KeyExchangeError, RecvError,
};
use rand::rngs::OsRng;
use x25519_dalek::{EphemeralSecret, PublicKey};

fn key() -> [u8; 32] {
    let mut key = [0u8; 32];
    for i in 0..32 {
        key[i] = i as u8;
    }
    key
}

fn nonce() -> [u8; 12] {
    [0, 1, 2, 3, 4, 5, 6, 7, 8, 9, 10, 11]
}

#[test]
fn encrypts_as_chacha20_poly1305_does() {
    let session = CryptoSession::new(key());
    let out = session.encrypt_with_nonce(&nonce(), b"hello");
    let expected: [u8; 33] = [
        0x00, 0x01, 0x02, 0x03, 0x04, 0x05, 0x06, 0x07, 0x08, 0x09, 0x0a, 0x0b, 0xe1, 0x9e, 0x64,
        0x6c, 0x46, 0xf5, 0x93, 0x96, 0x95, 0xc6, 0x70, 0x58, 0x6d, 0x63, 0xa6, 0x9f, 0x58, 0xc4,
        0x13, 0x96, 0xdd,
    ];
    assert_eq!(out, expected.to_vec());
}

#[test]
fn writes_a_line_of_base64() {
    let session = CryptoSession::new(key());
    let line = session.send_with_nonce(&nonce(), b"hello");
    assert_eq!(line, "AAECAwQFBgcICQoL4Z5kbEb1k5aVxnBYbWOmn1jEE5bd\n");
}

#[test]
fn reads_a_line_of_base64() {
    let session = CryptoSession::new(key());
    let line = "AAECAwQFBgcICQoL4Z5kbEb1k5aVxnBYbWOmn1jEE5bd\r\n";
    assert!(matches!(session.recv_msg(line), Ok(data) if data == b"hello"));
    assert!(matches!(session.recv_text(line), Ok(text) if text == "hello"));
}

#[test]
fn decrypts_what_was_encrypted() {
    let session = CryptoSession::new(key());
    for plaintext in ["", "hi", "🔒 naïve · text"] {
        let out = session.encrypt(plaintext.as_bytes());
        assert_eq!(out.len(), plaintext.len() + 28);
        assert_eq!(session.decrypt(&out), Ok(plaintext.as_bytes().to_vec()));
    }
}

#[test]
fn nonces_are_fresh() {
    let session = CryptoSession::new(key());
    let a = session.encrypt(b"same");
    let b = session.encrypt(b"same");
    assert_ne!(a[..12], b[..12]);
    assert_ne!(a, b);
}

#[test]
fn refuses_a_short_payload() {
    let session = CryptoSession::new(key());
    assert_eq!(session.decrypt(&[]), Err("payload too short"));
    assert_eq!(session.decrypt(&[0; 11]), Err("payload too short"));
    assert_eq!(
        session.decrypt(&[0; 12]),
        Err("decryption failed — message may be tampered")
    );
}

#[test]
fn refuses_a_tampered_payload() {
    let session = CryptoSession::new(key());
    let good = session.encrypt(b"attack at dawn");
    for i in 0..good.len() {
        let mut bad = good.clone();
        bad[i] ^= 1;
        assert_eq!(
            session.decrypt(&bad),
            Err("decryption failed — message may be tampered")
        );
    }
}

#[test]
fn refuses_another_key() {
    let mut other = key();
    other[31] = 0;
    let line = CryptoSession::new(key()).send_msg(b"secret");
    let read = CryptoSession::new(other).recv_msg(&line);
    assert!(matches!(
        read,
        Err(RecvError::Undecryptable("decryption failed — message may be tampered"))
    ));
}

#[test]
fn sends_and_receives_text() {
    let session = CryptoSession::new(key());
    let copy = session.duplicate();
    for text in ["", "/quit", "grüße | 漢字 🎨"] {
        let line = session.send_text(text);
        assert!(line.ends_with('\n'));
        assert_eq!(line.matches('\n').count(), 1);
        assert!(matches!(copy.recv_text(&line), Ok(t) if t == text));
    }
}

#[test]
fn malformed_bytes_become_replacement_characters() {
    let session = CryptoSession::new(key());
    let line = session.send_msg(&[b'a', 0xff, b'b']);
    assert!(matches!(session.recv_text(&line), Ok(t) if t == "a\u{fffd}b"));
}

#[test]
fn receiving_fails_at_the_end_of_the_stream() {
    let session = CryptoSession::new(key());
    let read = session.recv_msg("");
    assert!(matches!(read, Err(RecvError::ConnectionClosed)));
    assert_eq!(read.err().unwrap().message(), "connection closed");
}

#[test]
fn receiving_fails_on_other_than_base64() {
    let session = CryptoSession::new(key());
    let read = session.recv_msg("?not base64?\n");
    match read {
        Err(RecvError::InvalidBase64(e)) => assert_eq!(e, DecodeError::InvalidByte(0, b'?')),
        _ => panic!("accepted"),
    }
    let error = session.recv_msg("?not base64?\n").err().unwrap();
    assert_eq!(error.message(), DecodeError::InvalidByte(0, b'?').to_string());
}

#[test]
fn receiving_fails_on_an_empty_payload() {
    let session = CryptoSession::new(key());
    let error = session.recv_msg("\n").err().unwrap();
    assert!(matches!(error, RecvError::Undecryptable("payload too short")));
    assert_eq!(error.message(), "payload too short");
}

#[test]
fn a_message_is_one_line() {
    let session = CryptoSession::new(key());
    for plaintext in ["", "a", "ab", "abc", "a\nb\n", "0123456789"] {
        let line = session.send_msg(plaintext.as_bytes());
        assert_eq!(line.len(), (plaintext.len() + 30) / 3 * 4 + 1);
        assert_eq!(line.find('\n'), Some(line.len() - 1));
    }
}

#[test]
fn messages_in_a_row_are_received_in_order() {
    let session = CryptoSession::new(key());
    let plaintexts = ["one", "", "two\nlines\n", "\n"];
    let mut stream = String::new();
    for plaintext in plaintexts {
        stream.push_str(&session.send_msg(plaintext.as_bytes()));
    }
    let other = CryptoSession::new(key());
    let mut lines = stream.split_inclusive('\n');
    for plaintext in plaintexts {
        let line = lines.next().unwrap();
        assert!(matches!(other.recv_msg(line), Ok(data) if data == plaintext.as_bytes()));
    }
    let end = lines.next().unwrap_or("");
    assert!(matches!(other.recv_msg(end), Err(RecvError::ConnectionClosed)));
}

#[test]
fn refuses_what_is_shorter_than_a_tag() {
    let session = CryptoSession::new(key());
    let sealed = session.encrypt(b"");
    assert_eq!(sealed.len(), 28);
    assert_eq!(session.decrypt(&sealed), Ok(vec![]));
    assert_eq!(
        session.decrypt(&sealed[..27]),
        Err("decryption failed — message may be tampered")
    );
}

#[test]
fn two_sides_agree() {
    let (a, a_line) = begin_key_exchange();
    let (b, b_line) = begin_key_exchange();
    assert_eq!(a_line.len(), 45);
    assert_eq!(a_line.find('\n'), Some(44));
    assert_ne!(a_line, b_line);
    let of_a = perform_key_exchange(a, &b_line).ok().unwrap();
    let of_b = perform_key_exchange(b, &a_line).ok().unwrap();
    assert_eq!(of_a, of_b);
    let line = CryptoSession::new(of_a).send_text("hi");
    assert!(matches!(CryptoSession::new(of_b).recv_text(&line), Ok(t) if t == "hi"));
}

#[test]
fn agrees_with_x25519() {
    let (mine, line) = begin_key_exchange();
    let offered = STANDARD.decode(line.trim()).unwrap();
    let mut public = [0u8; 32];
    public.copy_from_slice(&offered);
    assert_eq!(PublicKey::from(&mine.secret).to_bytes(), public);

    let theirs = EphemeralSecret::random_from_rng(OsRng);
    let reply = STANDARD.encode(PublicKey::from(&theirs).as_bytes());
    let secret = perform_key_exchange(mine, &reply).ok().unwrap();
    assert_eq!(theirs.diffie_hellman(&PublicKey::from(public)).to_bytes(), secret);
}

fn exchange_error(line: &str) -> KeyExchangeError {
    let mine = KeyExchange {
        secret: EphemeralSecret::random_from_rng(OsRng),
    };
    perform_key_exchange(mine, line).err().unwrap()
}

#[test]
fn key_exchange_fails_without_a_peer() {
    for line in ["", "\n", "  \t\r\n"] {
        let error = exchange_error(line);
        assert!(matches!(error, KeyExchangeError::Disconnected));
        assert_eq!(error.message(), "peer disconnected during key exchange");
    }
}

#[test]
fn key_exchange_fails_on_other_than_base64() {
    let error = exchange_error("!!!!\n");
    assert!(matches!(error, KeyExchangeError::InvalidBase64(DecodeError::InvalidByte(0, b'!'))));
    assert_eq!(error.message(), DecodeError::InvalidByte(0, b'!').to_string());
}

#[test]
fn key_exchange_fails_on_a_key_of_another_length() {
    for len in [1usize, 31, 33] {
        let error = exchange_error(&STANDARD.encode(vec![7u8; len]));
        assert!(matches!(error, KeyExchangeError::InvalidLength));
        assert_eq!(error.message(), "invalid public key length");
    }
}

#[test]
fn reads_a_key_of_32_bytes() {
    assert!(matches!(read_key(Ok(key().to_vec())), Ok(k) if k == key()));
    assert!(matches!(read_key(Ok(vec![])), Err(KeyExchangeError::InvalidLength)));
    assert!(matches!(
        read_key(Err(DecodeError::InvalidPadding)),
        Err(KeyExchangeError::InvalidBase64(DecodeError::InvalidPadding))
    ));
}

#[test]
fn reads_what_base64_made_of_a_line() {
    let session = CryptoSession::new(key());
    let sealed = session.encrypt(b"x");
    assert!(matches!(session.recv_decoded(Ok(sealed)), Ok(data) if data == b"x"));
    assert!(matches!(
        session.recv_decoded(Err(DecodeError::InvalidPadding)),
        Err(RecvError::InvalidBase64(DecodeError::InvalidPadding))
    ));
}

#[test]
fn accepts_what_was_opened() {
    assert_eq!(accept_opened(Some(vec![1, 2])), Ok(vec![1, 2]));
    assert_eq!(accept_opened(None), Err("decryption failed — message may be tampered"));
}

#[test]
fn knows_what_fits_into_a_line() {
    assert!(fits_line(0));
    assert!(fits_line(1_000_000));
    assert!(fits_line(274_877_906_816));
    assert!(!fits_line(274_877_906_817));
    assert!(!fits_line(usize::MAX));
}
