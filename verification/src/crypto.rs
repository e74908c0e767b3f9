//! End-to-end encryption: the X25519 key exchange and the sealed lines that
//! follow it on the wire.
use base64::engine::general_purpose::STANDARD;
use base64::{DecodeError, Engine};
use chacha20poly1305::aead::{Aead, KeyInit};
use chacha20poly1305::{ChaCha20Poly1305, Key, Nonce};
use rand::rngs::OsRng;
use rand::RngCore;
use vstd::prelude::*;
use vstd::utf8::*;
use x25519_dalek::{EphemeralSecret, PublicKey};

use crate::text::{
    find, find_behind, find_first, is_space, read_text, text_of, text_of_its_bytes, trim_back, trim_front,
    trimmed,
};

verus! {

// ---------------------------------------------------------------------------
// Outside functions
// ---------------------------------------------------------------------------

/// The reason for which the `base64` crate refuses a text.
#[verifier::external_type_specification]
#[verifier::external_body]
pub struct ExDecodeError(base64::DecodeError);

/// The `aead` crate's error, which carries no information.
#[verifier::external_type_specification]
#[verifier::external_body]
pub struct ExAeadError(chacha20poly1305::Error);

/// An X25519 secret that serves for one agreement.
#[verifier::external_type_specification]
#[verifier::external_body]
pub struct ExEphemeralSecret(x25519_dalek::EphemeralSecret);

/// What ChaCha20-Poly1305 makes of a plaintext, tag included.
pub uninterp spec fn sealed(key: Seq<u8>, nonce: Seq<u8>, plaintext: Seq<u8>) -> Seq<u8>;

/// The plaintext that ChaCha20-Poly1305 recovers, where the tag is right.
pub uninterp spec fn opened(key: Seq<u8>, nonce: Seq<u8>, body: Seq<u8>) -> Option<Seq<u8>>;

/// What becomes of a Base64 text: its bytes, or the reason to refuse it.
pub type Decoded = Result<Seq<u8>, DecodeError>;

/// The contents of a decoding result.
pub open spec fn decoded_view(decoded: Result<Vec<u8>, DecodeError>) -> Decoded {
    match decoded {
        Ok(bytes) => Ok(bytes@),
        Err(e) => Err(e),
    }
}

/// The standard, padded Base64 text of some bytes.
pub uninterp spec fn base64_encoded(bytes: Seq<u8>) -> Seq<char>;

/// The bytes that a standard, padded Base64 text stands for.
pub uninterp spec fn base64_decoded(text: Seq<char>) -> Result<Seq<u8>, DecodeError>;

/// The X25519 public key that belongs to a secret.
pub uninterp spec fn public_key(secret: EphemeralSecret) -> Seq<u8>;

/// What X25519 makes of a secret and the public key of a peer.
pub uninterp spec fn shared_secret(secret: EphemeralSecret, peer: Seq<u8>) -> Seq<u8>;

/// The number of bytes that ChaCha20-Poly1305 encrypts at most under one nonce:
/// 64 for each value of its counter that is left after the first.
pub const SEAL_LIMIT: u64 = 274_877_906_816;

/// The length of the longest sealed plaintext, tag included.
pub const OPEN_LIMIT: u64 = 274_877_906_832;

/// The characters of the standard Base64 alphabet and its padding.
pub open spec fn is_base64_char(c: char) -> bool {
    ||| 'A' <= c <= 'Z'
    ||| 'a' <= c <= 'z'
    ||| '0' <= c <= '9'
    ||| c == '+'
    ||| c == '/'
    ||| c == '='
}

/// `ChaCha20Poly1305::encrypt` without associated data, on at most `SEAL_LIMIT`
/// bytes, returns the ciphertext with the 16 bytes of the tag behind it, which
/// decryption with the same key and nonce turns back into the plaintext.
#[verifier::external_body]
fn seal(key: &[u8; 32], nonce: &[u8; 12], plaintext: &[u8]) -> (res: Result<
    Vec<u8>,
    chacha20poly1305::Error,
>)
    requires
        plaintext@.len() <= SEAL_LIMIT,
        plaintext@.len() + 16 <= isize::MAX,
    ensures
        res is Ok,
        res matches Ok(body) ==> body@ == sealed(key@, nonce@, plaintext@),
        res matches Ok(body) ==> body@.len() == plaintext@.len() + 16,
        res matches Ok(body) ==> opened(key@, nonce@, body@) == Some(plaintext@),
{
    ChaCha20Poly1305::new(Key::from_slice(key)).encrypt(Nonce::from_slice(nonce), plaintext)
}

/// `ChaCha20Poly1305::decrypt` without associated data, on at most `OPEN_LIMIT`
/// bytes: its result is given a name. It refuses what is shorter than a tag, and
/// returns only a plaintext that encryption with the same key and nonce turns
/// into these bytes, which are 16 more.
#[verifier::external_body]
fn open(key: &[u8; 32], nonce: &[u8], body: &[u8]) -> (res: Result<
    Vec<u8>,
    chacha20poly1305::Error,
>)
    requires
        nonce@.len() == 12,
        body@.len() <= OPEN_LIMIT,
    ensures
        match res {
            Ok(plaintext) => opened(key@, nonce@, body@) == Some(plaintext@),
            Err(_) => opened(key@, nonce@, body@) is None,
        },
        body@.len() < 16 ==> res is Err,
        res matches Ok(plaintext) ==> body@ == sealed(key@, nonce@, plaintext@),
        res matches Ok(plaintext) ==> body@.len() == plaintext@.len() + 16,
{
    ChaCha20Poly1305::new(Key::from_slice(key)).decrypt(Nonce::from_slice(nonce), body)
}

/// `OsRng::fill_bytes`: twelve bytes of the operating system's randomness, of
/// which nothing more is claimed.
#[verifier::external_body]
fn random_nonce() -> (res: [u8; 12]) {
    let mut nonce = [0u8; 12];
    OsRng.fill_bytes(&mut nonce);
    nonce
}

/// The `STANDARD` engine's `encode`: text over the Base64 alphabet, four
/// characters for each three bytes begun, which decodes to the same bytes.
#[verifier::external_body]
fn to_base64(bytes: &[u8]) -> (res: String)
    requires
        (bytes@.len() + 2) / 3 * 4 <= isize::MAX,
    ensures
        res@ == base64_encoded(bytes@),
        res@.len() == (bytes@.len() + 2) / 3 * 4,
        forall|i: int| 0 <= i < res@.len() ==> is_base64_char(#[trigger] res@[i]),
        base64_decoded(res@) == Decoded::Ok(bytes@),
{
    STANDARD.encode(bytes)
}

/// The `STANDARD` engine's `decode`: its result is given a name.
#[verifier::external_body]
fn from_base64(text: &str) -> (res: Result<Vec<u8>, DecodeError>)
    ensures
        decoded_view(res) == base64_decoded(text@),
{
    STANDARD.decode(text)
}

/// The text in which the `base64` crate explains a refusal.
pub uninterp spec fn refusal_text(error: DecodeError) -> Seq<char>;

/// `DecodeError`'s `Display`: its result is given a name.
#[verifier::external_body]
fn explain_refusal(error: &DecodeError) -> (res: String)
    ensures
        res@ == refusal_text(*error),
{
    format!("{}", error)
}

/// `EphemeralSecret::random_from_rng` on the operating system's randomness.
#[verifier::external_body]
fn random_secret() -> (res: EphemeralSecret) {
    EphemeralSecret::random_from_rng(OsRng)
}

/// `PublicKey::from`, read as bytes: the public key that belongs to a secret.
/// What any other secret makes of it is what this secret makes of the other's
/// public key.
#[verifier::external_body]
fn public_bytes(secret: &EphemeralSecret) -> (res: [u8; 32])
    ensures
        res@ == public_key(*secret),
        forall|other: EphemeralSecret|
            #![trigger shared_secret(other, res@)]
            shared_secret(other, res@) == shared_secret(*secret, public_key(other)),
{
    PublicKey::from(secret).to_bytes()
}

/// `EphemeralSecret::diffie_hellman`: its result is given a name.
#[verifier::external_body]
fn agree(secret: EphemeralSecret, peer: [u8; 32]) -> (res: [u8; 32])
    ensures
        res@ == shared_secret(secret, peer@),
{
    secret.diffie_hellman(&PublicKey::from(peer)).to_bytes()
}

// ---------------------------------------------------------------------------
// Lines
// ---------------------------------------------------------------------------

/// The line that carries some bytes: their Base64 text and a line feed.
pub open spec fn line_of(bytes: Seq<u8>) -> Seq<char> {
    base64_encoded(bytes).push('\n')
}

/// Whether the line that carries so many bytes is no longer than any allocation
/// can be.
pub open spec fn line_fits(len: nat) -> bool {
    (len + 2) / 3 * 4 + 1 <= isize::MAX
}

/// Whether a text is one line: it ends in a line feed and holds no other.
pub open spec fn one_line(line: Seq<char>) -> bool {
    &&& line.len() > 0
    &&& line.last() == '\n'
    &&& forall|i: int| 0 <= i < line.len() - 1 ==> #[trigger] line[i] != '\n'
}

/// Trimming takes a final line feed off a text without white space.
pub proof fn trim_line(text: Seq<char>)
    requires
        forall|i: int| 0 <= i < text.len() ==> !is_space(#[trigger] text[i]),
    ensures
        trimmed(text.push('\n')) == text,
{
    let line = text.push('\n');
    if text.len() == 0 {
        assert(line.drop_first() =~= text);
        assert(trim_front(line) == trim_front(text));
        assert(trim_front(text) == text);
        assert(trim_back(text) == text);
    } else {
        assert(!is_space(text[0]));
        assert(line.first() == text[0]);
        assert(trim_front(line) == line);
        assert(line.drop_last() =~= text);
        assert(!is_space(text[text.len() - 1]));
        assert(trim_back(text) == text);
    }
}

/// Writes some bytes as one line.
fn write_line(bytes: &[u8]) -> (line: String)
    requires
        line_fits(bytes@.len()),
    ensures
        line@ == line_of(bytes@),
        base64_decoded(trimmed(line@)) == Decoded::Ok(bytes@),
        trimmed(line@).len() == (bytes@.len() + 2) / 3 * 4,
        line@.len() == (bytes@.len() + 2) / 3 * 4 + 1,
        one_line(line@),
{
    let mut line = to_base64(bytes);
    proof {
        assert forall|i: int| 0 <= i < line@.len() implies !is_space(#[trigger] line@[i]) by {
            assert(is_base64_char(line@[i]));
        }
        assert(is_space('\n'));
        trim_line(line@);
    }
    line.push('\n');
    line
}

// ---------------------------------------------------------------------------
// Key exchange
// ---------------------------------------------------------------------------

/// Why a key exchange came to nothing.
pub enum KeyExchangeError {
    /// The peer sent no key.
    Disconnected,
    /// The peer's line is no Base64 text.
    InvalidBase64(DecodeError),
    /// The peer's key does not have 32 bytes.
    InvalidLength,
}

impl KeyExchangeError {
    /// The text of the error.
    pub open spec fn text(self) -> Seq<char> {
        match self {
            KeyExchangeError::Disconnected => "peer disconnected during key exchange"@,
            KeyExchangeError::InvalidBase64(e) => refusal_text(e),
            KeyExchangeError::InvalidLength => "invalid public key length"@,
        }
    }

    /// The text of the error.
    pub fn message(&self) -> (res: String)
        ensures
            res@ == self.text(),
    {
        match self {
            KeyExchangeError::Disconnected => "peer disconnected during key exchange".to_owned(),
            KeyExchangeError::InvalidBase64(e) => explain_refusal(e),
            KeyExchangeError::InvalidLength => "invalid public key length".to_owned(),
        }
    }
}

/// One side of a key exchange whose public key has been sent, or is about to be.
pub struct KeyExchange {
    pub secret: EphemeralSecret,
}

/// The public key in what Base64 decoding returned.
pub open spec fn key_in(decoded: Decoded) -> Result<Seq<u8>, KeyExchangeError> {
    match decoded {
        Err(e) => Err(KeyExchangeError::InvalidBase64(e)),
        Ok(bytes) => if bytes.len() == 32 {
            Ok(bytes)
        } else {
            Err(KeyExchangeError::InvalidLength)
        },
    }
}

/// The public key in a peer's line.
pub open spec fn offered_key(line: Seq<char>) -> Result<Seq<u8>, KeyExchangeError> {
    if trimmed(line).len() == 0 {
        Err(KeyExchangeError::Disconnected)
    } else {
        key_in(base64_decoded(trimmed(line)))
    }
}

/// The secret at which `mine` arrives when the peer's line is `line`.
pub open spec fn exchanged(mine: KeyExchange, line: Seq<char>) -> Result<
    Seq<u8>,
    KeyExchangeError,
> {
    match offered_key(line) {
        Ok(peer) => Ok(shared_secret(mine.secret, peer)),
        Err(e) => Err(e),
    }
}

impl KeyExchange {
    /// `line` offers this side's public key to whoever reads it: one line of 44
    /// Base64 characters and a line feed.
    pub open spec fn offers(self, line: Seq<char>) -> bool {
        &&& line == line_of(public_key(self.secret))
        &&& line.len() == 45
        &&& one_line(line)
        &&& forall|other: KeyExchange| #[trigger]
            exchanged(other, line) == Result::<Seq<u8>, KeyExchangeError>::Ok(
                shared_secret(self.secret, public_key(other.secret)),
            )
        &&& offered_key(line) == Result::<Seq<u8>, KeyExchangeError>::Ok(public_key(self.secret))
    }
}

/// Two sides that read each other's offer arrive at the same secret.
pub proof fn both_sides_agree(a: KeyExchange, a_line: Seq<char>, b: KeyExchange, b_line: Seq<char>)
    ensures
        a.offers(a_line) && b.offers(b_line) ==> exchanged(a, b_line) is Ok,
        a.offers(a_line) && b.offers(b_line) ==> exchanged(a, b_line) == exchanged(b, a_line),
{
}

/// Opens a key exchange with a fresh secret. The line goes to the peer.
pub fn begin_key_exchange() -> (res: (KeyExchange, String))
    ensures
        res.0.offers(res.1@),
{
    let secret = random_secret();
    let public = public_bytes(&secret);
    let line = write_line(public.as_slice());
    let exchange = KeyExchange { secret };
    proof {
        assert(public@.len() == 32);
        assert forall|other: KeyExchange| #[trigger]
            exchanged(other, line@) == Result::<Seq<u8>, KeyExchangeError>::Ok(
                shared_secret(exchange.secret, public_key(other.secret)),
            ) by {
            assert(shared_secret(other.secret, public@) == shared_secret(
                exchange.secret,
                public_key(other.secret),
            ));
        }
    }
    (exchange, line)
}

/// Reads a public key out of what Base64 decoding returned.
pub fn read_key(decoded: Result<Vec<u8>, DecodeError>) -> (res: Result<[u8; 32], KeyExchangeError>)
    ensures
        match res {
            Ok(key) => key_in(decoded_view(decoded)) matches Ok(k) && k == key@,
            Err(e) => key_in(decoded_view(decoded)) matches Err(f) && f == e,
        },
{
    match decoded {
        Err(e) => Err(KeyExchangeError::InvalidBase64(e)),
        Ok(bytes) => {
            if bytes.len() != 32 {
                return Err(KeyExchangeError::InvalidLength);
            }
            let mut key = [0u8; 32];
            for i in 0..32usize
                invariant
                    bytes@.len() == 32,
                    forall|j: int| 0 <= j < i ==> key@[j] == bytes@[j],
            {
                key[i] = bytes[i];
            }
            assert(key@ =~= bytes@);
            Ok(key)
        },
    }
}

/// Completes a key exchange with the peer's line, which is empty where the peer
/// has gone. Returns the 32 bytes that both sides share.
pub fn perform_key_exchange(mine: KeyExchange, line: &str) -> (res: Result<
    [u8; 32],
    KeyExchangeError,
>)
    ensures
        match res {
            Ok(secret) => exchanged(mine, line@) matches Ok(s) && s == secret@,
            Err(e) => exchanged(mine, line@) matches Err(f) && f == e,
        },
{
    let text = line.trim();
    if text.is_empty() {
        return Err(KeyExchangeError::Disconnected);
    }
    match read_key(from_base64(text)) {
        Ok(peer) => Ok(agree(mine.secret, peer)),
        Err(e) => Err(e),
    }
}

// ---------------------------------------------------------------------------
// Session
// ---------------------------------------------------------------------------

/// Whether a plaintext of so many bytes can be encrypted.
pub open spec fn can_encrypt(len: nat) -> bool {
    len <= SEAL_LIMIT && len + 28 <= isize::MAX
}

/// Whether a plaintext of so many bytes can be sent as one line.
pub open spec fn can_send(len: nat) -> bool {
    can_encrypt(len) && line_fits(len + 28)
}

/// What decryption returns for what the cipher made of a payload.
pub open spec fn decrypt_outcome(opened: Option<Seq<u8>>) -> Result<Seq<u8>, Seq<char>> {
    match opened {
        Some(plaintext) => Ok(plaintext),
        None => Err("decryption failed — message may be tampered"@),
    }
}

/// The plaintext of a payload, or the text of the error. A payload too long to
/// have been sealed is refused like one that was tampered with.
pub open spec fn decrypted(key: Seq<u8>, data: Seq<u8>) -> Result<Seq<u8>, Seq<char>> {
    if data.len() < 12 {
        Err("payload too short"@)
    } else if data.len() - 12 > OPEN_LIMIT {
        decrypt_outcome(None)
    } else {
        decrypt_outcome(opened(key, data.take(12), data.skip(12)))
    }
}

/// The payload for a plaintext: the nonce, and behind it the sealed plaintext.
pub open spec fn payload(key: Seq<u8>, nonce: Seq<u8>, plaintext: Seq<u8>) -> Seq<u8> {
    nonce + sealed(key, nonce, plaintext)
}

/// Why no message came out of a line.
pub enum RecvError {
    /// The stream has ended.
    ConnectionClosed,
    /// The line is no Base64 text.
    InvalidBase64(DecodeError),
    /// The payload could not be decrypted, for the reason given.
    Undecryptable(&'static str),
}

/// The contents of a `RecvError`.
pub enum RecvErrorView {
    ConnectionClosed,
    InvalidBase64(DecodeError),
    Undecryptable(Seq<char>),
}

impl View for RecvError {
    type V = RecvErrorView;

    open spec fn view(&self) -> RecvErrorView {
        match *self {
            RecvError::ConnectionClosed => RecvErrorView::ConnectionClosed,
            RecvError::InvalidBase64(e) => RecvErrorView::InvalidBase64(e),
            RecvError::Undecryptable(reason) => RecvErrorView::Undecryptable(reason@),
        }
    }
}

impl RecvErrorView {
    /// The text of the error.
    pub open spec fn text(self) -> Seq<char> {
        match self {
            RecvErrorView::ConnectionClosed => "connection closed"@,
            RecvErrorView::InvalidBase64(e) => refusal_text(e),
            RecvErrorView::Undecryptable(reason) => reason,
        }
    }
}

impl RecvError {
    /// The text of the error.
    pub fn message(&self) -> (res: String)
        ensures
            res@ == self@.text(),
    {
        match self {
            RecvError::ConnectionClosed => "connection closed".to_owned(),
            RecvError::InvalidBase64(e) => explain_refusal(e),
            RecvError::Undecryptable(reason) => (*reason).to_owned(),
        }
    }
}

/// The message in what Base64 decoding returned.
pub open spec fn message_in(key: Seq<u8>, decoded: Decoded) -> Result<Seq<u8>, RecvErrorView> {
    match decoded {
        Err(e) => Err(RecvErrorView::InvalidBase64(e)),
        Ok(data) => match decrypted(key, data) {
            Ok(plaintext) => Ok(plaintext),
            Err(reason) => Err(RecvErrorView::Undecryptable(reason)),
        },
    }
}

/// The message in a line, where an empty one stands for the end of the stream.
pub open spec fn received(key: Seq<u8>, line: Seq<char>) -> Result<Seq<u8>, RecvErrorView> {
    if line.len() == 0 {
        Err(RecvErrorView::ConnectionClosed)
    } else {
        message_in(key, base64_decoded(trimmed(line)))
    }
}

/// Whether a line carries a plaintext to whoever has the key.
pub open spec fn carries(key: Seq<u8>, line: Seq<char>, plaintext: Seq<u8>) -> bool {
    one_line(line) && received(key, line) == Result::<Seq<u8>, RecvErrorView>::Ok(plaintext)
}

/// The text in a line, where an empty line stands for the end of the stream.
pub open spec fn received_text(key: Seq<u8>, line: Seq<char>) -> Result<Seq<char>, RecvErrorView> {
    match received(key, line) {
        Ok(data) => Ok(text_of(data)),
        Err(e) => Err(e),
    }
}

/// Whether a text can be sent as one line.
pub open spec fn sendable(text: Seq<char>) -> bool {
    can_send(encode_utf8(text).len())
}

/// The symmetric key that came out of the key exchange. Several sessions may
/// hold the same key: each encryption draws a fresh random nonce.
pub struct CryptoSession {
    key: [u8; 32],
}

impl View for CryptoSession {
    type V = Seq<u8>;

    closed spec fn view(&self) -> Seq<u8> {
        self.key@
    }
}

/// Hands a recovered plaintext on, or says why there is none.
pub fn accept_opened(opened: Option<Vec<u8>>) -> (res: Result<Vec<u8>, &'static str>)
    ensures
        match (opened, res) {
            (Some(plaintext), Ok(p)) => p@ == plaintext@,
            (None, Err(e)) => e@ == "decryption failed — message may be tampered"@,
            _ => false,
        },
{
    match opened {
        Some(plaintext) => Ok(plaintext),
        None => Err("decryption failed — message may be tampered"),
    }
}

impl CryptoSession {
    /// A session with the given key.
    pub fn new(shared_secret: [u8; 32]) -> (res: Self)
        ensures
            res@ == shared_secret@,
    {
        CryptoSession { key: shared_secret }
    }

    /// Another session with the same key.
    pub fn duplicate(&self) -> (res: Self)
        ensures
            res@ == self@,
    {
        CryptoSession { key: self.key }
    }

    /// Encrypts with the given nonce.
    pub fn encrypt_with_nonce(&self, nonce: &[u8; 12], plaintext: &[u8]) -> (out: Vec<u8>)
        requires
            can_encrypt(plaintext@.len()),
        ensures
            out@ == payload(self@, nonce@, plaintext@),
            out@.len() == plaintext@.len() + 28,
            decrypted(self@, out@) == Result::<Seq<u8>, Seq<char>>::Ok(plaintext@),
    {
        let body = seal(&self.key, nonce, plaintext).expect("encryption failed");
        let mut out: Vec<u8> = Vec::with_capacity(12 + body.len());
        out.extend_from_slice(nonce.as_slice());
        out.extend_from_slice(body.as_slice());
        assert(out@ =~= nonce@ + body@);
        assert(out@.take(12) =~= nonce@);
        assert(out@.skip(12) =~= body@);
        out
    }

    /// Encrypts with a fresh random nonce. Returns the 12 bytes of the nonce
    /// and, behind them, the ciphertext.
    pub fn encrypt(&self, plaintext: &[u8]) -> (out: Vec<u8>)
        requires
            can_encrypt(plaintext@.len()),
        ensures
            out@ == payload(self@, out@.take(12), plaintext@),
            out@.len() == plaintext@.len() + 28,
            decrypted(self@, out@) == Result::<Seq<u8>, Seq<char>>::Ok(plaintext@),
    {
        let nonce = random_nonce();
        let out = self.encrypt_with_nonce(&nonce, plaintext);
        assert(out@.take(12) =~= nonce@);
        out
    }

    /// Decrypts what `encrypt` returned, and nothing else: what it accepts is the
    /// payload for the plaintext under this key.
    pub fn decrypt(&self, data: &[u8]) -> (res: Result<Vec<u8>, &'static str>)
        ensures
            match res {
                Ok(plaintext) => decrypted(self@, data@) matches Ok(p) && p == plaintext@,
                Err(e) => decrypted(self@, data@) matches Err(reason) && reason == e@,
            },
            res matches Ok(plaintext) ==> data@ == payload(self@, data@.take(12), plaintext@),
            res matches Ok(plaintext) ==> data@.len() == plaintext@.len() + 28,
    {
        if data.len() < 12 {
            return Err("payload too short");
        }
        if (data.len() - 12) as u64 > OPEN_LIMIT {
            return accept_opened(None);
        }
        let (nonce, body) = data.split_at(12);
        assert(nonce@ =~= data@.take(12));
        assert(body@ =~= data@.skip(12));
        assert(data@ =~= nonce@ + body@);
        match open(&self.key, nonce, body) {
            Ok(plaintext) => accept_opened(Some(plaintext)),
            Err(_) => accept_opened(None),
        }
    }

    /// The line that sends `plaintext`, encrypted with the given nonce.
    pub fn send_with_nonce(&self, nonce: &[u8; 12], plaintext: &[u8]) -> (line: String)
        requires
            can_send(plaintext@.len()),
        ensures
            line@ == line_of(payload(self@, nonce@, plaintext@)),
            line@.len() == (plaintext@.len() + 30) / 3 * 4 + 1,
            carries(self@, line@, plaintext@),
    {
        let encrypted = self.encrypt_with_nonce(nonce, plaintext);
        write_line(encrypted.as_slice())
    }

    /// The line that sends `plaintext`: encrypted with a fresh random nonce, in
    /// Base64.
    pub fn send_msg(&self, plaintext: &[u8]) -> (line: String)
        requires
            can_send(plaintext@.len()),
        ensures
            exists|nonce: Seq<u8>|
                nonce.len() == 12 && line@ == #[trigger] line_of(
                    payload(self@, nonce, plaintext@),
                ),
            line@.len() == (plaintext@.len() + 30) / 3 * 4 + 1,
            carries(self@, line@, plaintext@),
    {
        let encrypted = self.encrypt(plaintext);
        let line = write_line(encrypted.as_slice());
        assert(line@ == line_of(payload(self@, encrypted@.take(12), plaintext@)));
        line
    }

    /// Decrypts what Base64 decoding returned.
    pub fn recv_decoded(&self, decoded: Result<Vec<u8>, DecodeError>) -> (res: Result<
        Vec<u8>,
        RecvError,
    >)
        ensures
            match res {
                Ok(plaintext) => message_in(self@, decoded_view(decoded)) matches Ok(p) && p
                    == plaintext@,
                Err(e) => message_in(self@, decoded_view(decoded)) matches Err(f) && f == e@,
            },
            res matches Ok(plaintext) ==> exists|nonce: Seq<u8>|
                nonce.len() == 12 && decoded_view(decoded) == Decoded::Ok(
                    #[trigger] payload(self@, nonce, plaintext@),
                ),
    {
        match decoded {
            Err(e) => Err(RecvError::InvalidBase64(e)),
            Ok(data) => match self.decrypt(data.as_slice()) {
                Ok(plaintext) => {
                    assert(data@ == payload(self@, data@.take(12), plaintext@));
                    Ok(plaintext)
                },
                Err(reason) => Err(RecvError::Undecryptable(reason)),
            },
        }
    }

    /// The message in one line read from the peer, which is empty at the end of
    /// the stream. Only a line that stands for a payload under this key has one.
    pub fn recv_msg(&self, line: &str) -> (res: Result<Vec<u8>, RecvError>)
        ensures
            match res {
                Ok(plaintext) => received(self@, line@) matches Ok(p) && p == plaintext@,
                Err(e) => received(self@, line@) matches Err(f) && f == e@,
            },
            res matches Ok(plaintext) ==> exists|nonce: Seq<u8>|
                nonce.len() == 12 && base64_decoded(trimmed(line@)) == Decoded::Ok(
                    #[trigger] payload(self@, nonce, plaintext@),
                ),
    {
        if line.is_empty() {
            return Err(RecvError::ConnectionClosed);
        }
        self.recv_decoded(from_base64(line.trim()))
    }

    /// The line that sends a text. Whoever has the key reads the same text in it.
    pub fn send_text(&self, text: &str) -> (line: String)
        requires
            sendable(text@),
        ensures
            exists|nonce: Seq<u8>|
                nonce.len() == 12 && line@ == #[trigger] line_of(
                    payload(self@, nonce, encode_utf8(text@)),
                ),
            line@.len() == (encode_utf8(text@).len() + 30) / 3 * 4 + 1,
            carries(self@, line@, encode_utf8(text@)),
            received_text(self@, line@) == Result::<Seq<char>, RecvErrorView>::Ok(text@),
    {
        proof {
            text_of_its_bytes(text@);
        }
        self.send_msg(text.as_bytes())
    }

    /// The text in one line read from the peer, which is empty at the end of the
    /// stream.
    pub fn recv_text(&self, line: &str) -> (res: Result<String, RecvError>)
        ensures
            match res {
                Ok(text) => received_text(self@, line@) matches Ok(t) && t == text@,
                Err(e) => received_text(self@, line@) matches Err(f) && f == e@,
            },
    {
        match self.recv_msg(line) {
            Ok(data) => Ok(read_text(data.as_slice())),
            Err(e) => Err(e),
        }
    }
}

/// Whether a plaintext of so many bytes can be sent as one line.
pub fn fits_line(len: usize) -> (res: bool)
    ensures
        res == can_send(len as nat),
{
    if len as u64 > SEAL_LIMIT {
        return false;
    }
    let most: usize = isize::MAX as usize;
    if len > most - 28 {
        return false;
    }
    let chunks: usize = if (len + 28) % 3 == 0 {
        (len + 28) / 3
    } else {
        (len + 28) / 3 + 1
    };
    chunks <= (most - 1) / 4
}

// ---------------------------------------------------------------------------
// Streams
// ---------------------------------------------------------------------------

/// The first line of a stream, up to its line feed or the end.
pub open spec fn first_line(stream: Seq<char>) -> Seq<char> {
    if find(stream, '\n') < stream.len() {
        stream.take(find(stream, '\n') as int + 1)
    } else {
        stream
    }
}

/// What follows the first line of a stream.
pub open spec fn after_first_line(stream: Seq<char>) -> Seq<char> {
    stream.skip(first_line(stream).len() as int)
}

/// The lines of a stream: it is cut behind each line feed.
pub open spec fn lines_of(stream: Seq<char>) -> Seq<Seq<char>>
    decreases stream.len(),
{
    if stream.len() == 0 {
        seq![]
    } else {
        seq![first_line(stream)] + lines_of(after_first_line(stream))
    }
}

/// What `n` attempts to receive a message from a stream return, one after the
/// other. Each takes one line off the stream.
pub open spec fn received_in_turn(key: Seq<u8>, stream: Seq<char>, n: nat) -> Seq<
    Result<Seq<u8>, RecvErrorView>,
>
    decreases n,
{
    if n == 0 {
        seq![]
    } else {
        seq![received(key, first_line(stream))] + received_in_turn(
            key,
            after_first_line(stream),
            (n - 1) as nat,
        )
    }
}

/// A line in front of a stream is its first.
proof fn line_comes_first(line: Seq<char>, rest: Seq<char>)
    requires
        one_line(line),
    ensures
        first_line(line + rest) == line,
        after_first_line(line + rest) == rest,
{
    let text = line.drop_last();
    let stream = line + rest;
    assert forall|i: int| 0 <= i < text.len() implies text[i] != '\n' by {
        assert(text[i] == line[i]);
    }
    find_behind(text, rest, '\n');
    assert(stream =~= text.push('\n') + rest);
    assert(stream.take(line.len() as int) =~= line);
    assert(stream.skip(line.len() as int) =~= rest);
}

/// Messages that were sent one after the other are received one after the other,
/// whatever they hold, and then comes the end of the stream.
pub proof fn messages_in_a_row(key: Seq<u8>, lines: Seq<Seq<char>>, plaintexts: Seq<Seq<u8>>)
    requires
        lines.len() == plaintexts.len(),
        forall|i: int|
            0 <= i < lines.len() ==> carries(key, #[trigger] lines[i], plaintexts[i]),
    ensures
        lines_of(lines.flatten()) == lines,
        received_in_turn(key, lines.flatten(), lines.len()) == plaintexts.map_values(
            |p: Seq<u8>| Result::<Seq<u8>, RecvErrorView>::Ok(p),
        ),
        received_in_turn(key, lines.flatten(), lines.len() + 1) == plaintexts.map_values(
            |p: Seq<u8>| Result::<Seq<u8>, RecvErrorView>::Ok(p),
        ).push(Err(RecvErrorView::ConnectionClosed)),
    decreases lines.len(),
{
    let ok = |p: Seq<u8>| Result::<Seq<u8>, RecvErrorView>::Ok(p);
    let stream = lines.flatten();
    if lines.len() == 0 {
        assert(stream =~= seq![]);
        assert(first_line(stream) == stream);
        assert(received_in_turn(key, after_first_line(stream), 0) =~= seq![]);
        assert(received_in_turn(key, stream, 1) =~= plaintexts.map_values(ok).push(
            Err(RecvErrorView::ConnectionClosed),
        ));
    } else {
        let rest = lines.drop_first();
        let later = plaintexts.drop_first();
        assert(carries(key, lines[0], plaintexts[0]));
        assert forall|i: int| 0 <= i < rest.len() implies carries(
            key,
            #[trigger] rest[i],
            later[i],
        ) by {
            assert(carries(key, lines[i + 1], plaintexts[i + 1]));
        }
        messages_in_a_row(key, rest, later);
        line_comes_first(lines[0], rest.flatten());
        assert(stream == lines[0] + rest.flatten());
        assert(lines =~= seq![lines[0]] + rest);
        assert(plaintexts.map_values(ok) =~= seq![ok(plaintexts[0])] + later.map_values(ok));
        assert(received_in_turn(key, stream, lines.len() + 1) =~= plaintexts.map_values(ok).push(
            Err(RecvErrorView::ConnectionClosed),
        ));
    }
}

// ---------------------------------------------------------------------------
// Laws of outcomes
// ---------------------------------------------------------------------------

/// Every plaintext that the cipher takes and that fits into memory as a line can
/// be sent, and no other.
pub proof fn what_can_be_sent(len: nat)
    ensures
        can_encrypt(len) <==> len <= 274_877_906_816 && len + 28 <= isize::MAX,
        can_send(len) <==> len <= 274_877_906_816 && len + 28 <= isize::MAX && (len + 30) / 3 * 4
            + 1 <= isize::MAX,
{
}

/// A text can be sent as its bytes can.
pub proof fn which_texts_can_be_sent(text: Seq<char>)
    ensures
        sendable(text) <==> can_send(encode_utf8(text).len()),
{
}

/// A line is the Base64 text of its bytes with a line feed behind it.
pub proof fn line_is_base64(bytes: Seq<u8>)
    ensures
        line_of(bytes).len() == base64_encoded(bytes).len() + 1,
        line_of(bytes).drop_last() == base64_encoded(bytes),
        line_of(bytes).last() == '\n',
{
    assert(line_of(bytes).drop_last() =~= base64_encoded(bytes));
}

/// A payload is the nonce with the sealed plaintext behind it.
pub proof fn payload_parts(key: Seq<u8>, nonce: Seq<u8>, plaintext: Seq<u8>)
    requires
        nonce.len() == 12,
    ensures
        payload(key, nonce, plaintext).take(12) == nonce,
        payload(key, nonce, plaintext).skip(12) == sealed(key, nonce, plaintext),
{
    assert(payload(key, nonce, plaintext).take(12) =~= nonce);
    assert(payload(key, nonce, plaintext).skip(12) =~= sealed(key, nonce, plaintext));
}

/// A payload gives the plaintext that the cipher recovers with its first twelve
/// bytes as the nonce. It gives an error where it is shorter than that, and
/// another where the cipher recovers none.
pub proof fn decryption_outcomes(key: Seq<u8>, nonce: Seq<u8>, body: Seq<u8>, plaintext: Seq<u8>)
    requires
        nonce.len() == 12,
        body.len() <= 274_877_906_832,
    ensures
        opened(key, nonce, body) == Some(plaintext) ==> decrypted(key, nonce + body) == Result::<
            Seq<u8>,
            Seq<char>,
        >::Ok(plaintext),
        opened(key, nonce, body) is None ==> decrypted(key, nonce + body) == Result::<
            Seq<u8>,
            Seq<char>,
        >::Err("decryption failed — message may be tampered"@),
        decrypted(key, nonce.drop_last()) == Result::<Seq<u8>, Seq<char>>::Err(
            "payload too short"@,
        ),
{
    assert((nonce + body).take(12) =~= nonce);
    assert((nonce + body).skip(12) =~= body);
}

/// Whatever is shorter than a nonce is too short, and whatever is longer than any
/// sealed plaintext counts as tampered with.
pub proof fn payload_lengths(key: Seq<u8>, data: Seq<u8>)
    ensures
        data.len() < 12 <==> decrypted(key, data) == Result::<Seq<u8>, Seq<char>>::Err(
            "payload too short"@,
        ),
        data.len() > 274_877_906_844 ==> decrypted(key, data) == Result::<Seq<u8>, Seq<char>>::Err(
            "decryption failed — message may be tampered"@,
        ),
{
    reveal_strlit("payload too short");
    reveal_strlit("decryption failed — message may be tampered");
    assert("payload too short"@[0] == 'p');
    assert("decryption failed — message may be tampered"@[0] == 'd');
}

/// The end of the stream, a line that is no Base64, one that cannot be decrypted
/// and one that can are told apart; white space around a line makes no
/// difference.
pub proof fn receiving_outcomes(key: Seq<u8>, line: Seq<char>, data: Seq<u8>, e: DecodeError)
    ensures
        received(key, Seq::empty()) == Result::<Seq<u8>, RecvErrorView>::Err(
            RecvErrorView::ConnectionClosed,
        ),
        line.len() > 0 && base64_decoded(trimmed(line)) == Decoded::Err(e) ==> received(key, line)
            == Result::<Seq<u8>, RecvErrorView>::Err(RecvErrorView::InvalidBase64(e)),
        line.len() > 0 && base64_decoded(trimmed(line)) == Decoded::Ok(data) ==> match decrypted(
            key,
            data,
        ) {
            Ok(plaintext) => received(key, line) == Result::<Seq<u8>, RecvErrorView>::Ok(plaintext),
            Err(reason) => received(key, line) == Result::<Seq<u8>, RecvErrorView>::Err(
                RecvErrorView::Undecryptable(reason),
            ),
        },
{
}

/// What decoding returned is treated as the line it came from.
pub proof fn decoded_as_received(key: Seq<u8>, line: Seq<char>)
    requires
        line.len() > 0,
    ensures
        message_in(key, base64_decoded(trimmed(line))) == received(key, line),
        trimmed(line).len() > 0 ==> key_in(base64_decoded(trimmed(line))) == offered_key(line),
{
}

/// A received text is the whole of what the received bytes stand for, and the
/// errors are the same.
pub proof fn received_bytes_as_text(key: Seq<u8>, line: Seq<char>, data: Seq<u8>, e: RecvErrorView)
    ensures
        received(key, line) == Result::<Seq<u8>, RecvErrorView>::Ok(data) ==> received_text(
            key,
            line,
        ) == Result::<Seq<char>, RecvErrorView>::Ok(text_of(data)),
        received(key, line) == Result::<Seq<u8>, RecvErrorView>::Err(e) ==> received_text(key, line)
            == Result::<Seq<char>, RecvErrorView>::Err(e),
{
}

/// A line that carries a plaintext carries no other.
pub proof fn line_carries_one_plaintext(key: Seq<u8>, line: Seq<char>, a: Seq<u8>, b: Seq<u8>)
    requires
        carries(key, line, a),
        carries(key, line, b),
    ensures
        a == b,
        line.last() == '\n',
        !line.drop_last().contains('\n'),
        received(key, line) == Result::<Seq<u8>, RecvErrorView>::Ok(a),
{
    if line.drop_last().contains('\n') {
        let i = choose|i: int| 0 <= i < line.len() - 1 && line.drop_last()[i] == '\n';
        assert(line[i] == '\n');
    }
}

/// A blank line, one that is no Base64, and a key of another length than 32 bytes
/// are told apart; a key of 32 bytes is taken as it is.
pub proof fn key_exchange_outcomes(
    mine: KeyExchange,
    line: Seq<char>,
    key: Seq<u8>,
    e: DecodeError,
)
    ensures
        trimmed(line).len() == 0 ==> exchanged(mine, line) == Result::<
            Seq<u8>,
            KeyExchangeError,
        >::Err(KeyExchangeError::Disconnected),
        trimmed(line).len() > 0 && base64_decoded(trimmed(line)) == Decoded::Err(e) ==> exchanged(
            mine,
            line,
        ) == Result::<Seq<u8>, KeyExchangeError>::Err(KeyExchangeError::InvalidBase64(e)),
        trimmed(line).len() > 0 && base64_decoded(trimmed(line)) == Decoded::Ok(key) && key.len()
            != 32 ==> exchanged(mine, line) == Result::<Seq<u8>, KeyExchangeError>::Err(
            KeyExchangeError::InvalidLength,
        ),
        trimmed(line).len() > 0 && base64_decoded(trimmed(line)) == Decoded::Ok(key) && key.len()
            == 32 ==> exchanged(mine, line) == Result::<Seq<u8>, KeyExchangeError>::Ok(
            shared_secret(mine.secret, key),
        ),
        trimmed(line).len() > 0 && base64_decoded(trimmed(line)) == Decoded::Ok(key) && key.len()
            == 32 ==> offered_key(line) == Result::<Seq<u8>, KeyExchangeError>::Ok(key),
{
}

/// An offer holds the side's whole public key, on one line of 45 characters.
pub proof fn offer_holds_the_key(mine: KeyExchange, line: Seq<char>)
    requires
        mine.offers(line),
    ensures
        line.drop_last() == base64_encoded(public_key(mine.secret)),
        line.len() == 45,
        line.last() == '\n',
        offered_key(line) == Result::<Seq<u8>, KeyExchangeError>::Ok(public_key(mine.secret)),
{
    assert(line.drop_last() =~= base64_encoded(public_key(mine.secret)));
}

/// Every error is explained by its own text.
pub proof fn error_texts(e: DecodeError, reason: Seq<char>)
    ensures
        KeyExchangeError::Disconnected.text() == "peer disconnected during key exchange"@,
        KeyExchangeError::InvalidBase64(e).text() == refusal_text(e),
        KeyExchangeError::InvalidLength.text() == "invalid public key length"@,
        RecvErrorView::ConnectionClosed.text() == "connection closed"@,
        RecvErrorView::InvalidBase64(e).text() == refusal_text(e),
        RecvErrorView::Undecryptable(reason).text() == reason,
{
}

/// An error is seen as what it is.
pub proof fn error_parts(e: DecodeError, reason: &'static str)
    ensures
        RecvError::ConnectionClosed@ == RecvErrorView::ConnectionClosed,
        RecvError::InvalidBase64(e)@ == RecvErrorView::InvalidBase64(e),
        RecvError::Undecryptable(reason)@ == RecvErrorView::Undecryptable(reason@),
{
}

/// The result of decoding is seen with all its bytes, or with its error.
pub proof fn decoded_parts(bytes: Vec<u8>, e: DecodeError)
    ensures
        decoded_view(Ok(bytes)) == Decoded::Ok(bytes@),
        decoded_view(Err(e)) == Decoded::Err(e),
{
}

/// The lines of a stream give the stream when they stand in a row again, and each
/// but the last ends where a line feed stands.
pub proof fn lines_make_up_the_stream(stream: Seq<char>)
    ensures
        lines_of(stream).flatten() == stream,
        stream.len() > 0 ==> first_line(stream) + after_first_line(stream) == stream,
        stream.contains('\n') ==> one_line(first_line(stream)),
        !stream.contains('\n') ==> first_line(stream) == stream,
    decreases stream.len(),
{
    find_first(stream, '\n');
    assert(first_line(stream) + after_first_line(stream) =~= stream);
    if stream.len() == 0 {
        assert(lines_of(stream).flatten() =~= stream);
    } else {
        let rest = after_first_line(stream);
        lines_make_up_the_stream(rest);
        assert(lines_of(stream).drop_first() =~= lines_of(rest));
        assert(lines_of(stream).first() == first_line(stream));
    }
}

} // verus!
