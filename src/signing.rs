use vstd::prelude::*;
use crate::mapping::Module;
use crate::types::{EcdsaSignature, EvmAddress};

verus! {

/// The lowercase ASCII hex digit of a nibble.
pub open spec fn nibble_char(n: u8) -> u8 {
    if n < 10 {
        (48 + n) as u8
    } else {
        (87 + n) as u8
    }
}

/// Each byte as two lowercase hex digits, high nibble first.
pub open spec fn ascii_hex(data: Seq<u8>) -> Seq<u8>
    decreases data.len(),
{
    if data.len() == 0 {
        seq![]
    } else {
        let b = data.last();
        ascii_hex(data.drop_last()) + seq![nibble_char(b / 16), nibble_char(b % 16)]
    }
}

/// The decimal digits of `n`, most significant first; no digits for zero.
pub open spec fn decimal(n: nat) -> Seq<u8>
    decreases n,
{
    if n == 0 {
        seq![]
    } else {
        decimal(n / 10).push((48 + n % 10) as u8)
    }
}

/// The framing that wallets put before a personally signed message.
pub open spec fn signed_message_header() -> Seq<u8> {
    // "\x19Ethereum Signed Message:\n"
    seq![
        0x19u8, 69, 116, 104, 101, 114, 101, 117, 109, 32, 83, 105, 103, 110,
        101, 100, 32, 77, 101, 115, 115, 97, 103, 101, 58, 10,
    ]
}

/// The tag that names this chain's signing domain.
pub open spec fn domain_tag() -> Seq<u8> {
    // "acala evm:"
    seq![97u8, 99, 97, 108, 97, 32, 101, 118, 109, 58]
}

/// The bytes that are hashed and signed for `what` and `extra`.
pub open spec fn signable_message(what: Seq<u8>, extra: Seq<u8>) -> Seq<u8> {
    let body = domain_tag() + what + extra;
    signed_message_header() + decimal(body.len()) + body
}

fn nibble(n: u8) -> (r: u8)
    requires
        n < 16,
    ensures
        r == nibble_char(n),
{
    if n < 10 {
        48 + n
    } else {
        87 + n
    }
}

/// Converts binary data into ASCII-encoded lowercase hex, twice as long.
pub fn to_ascii_hex(data: &[u8]) -> (r: Vec<u8>)
    ensures
        r@ == ascii_hex(data@),
{
    let mut r: Vec<u8> = Vec::new();
    let mut i: usize = 0;
    while i < data.len()
        invariant
            0 <= i <= data@.len(),
            r@ == ascii_hex(data@.subrange(0, i as int)),
        decreases data@.len() - i,
    {
        let b = data[i];
        r.push(nibble(b / 16));
        r.push(nibble(b % 16));
        assert(data@.subrange(0, i + 1).drop_last() == data@.subrange(0, i as int));
        i = i + 1;
    }
    assert(data@.subrange(0, data@.len() as int) == data@);
    r
}

fn decimal_digits(n: usize) -> (r: Vec<u8>)
    ensures
        r@ == decimal(n as nat),
{
    let mut l: usize = n;
    let mut digits: Vec<u8> = Vec::new();
    while l > 0
        invariant
            decimal(n as nat) == decimal(l as nat) + digits@,
        decreases l,
    {
        let d: u8 = (l % 10) as u8;
        digits.insert(0, 48 + d);
        assert(decimal(l as nat) == decimal((l / 10) as nat).push((48 + d) as u8));
        l = l / 10;
    }
    assert(decimal(0) + digits@ == digits@);
    digits
}

fn append(v: &mut Vec<u8>, s: &[u8])
    ensures
        final(v)@ == old(v)@ + s@,
{
    let mut i: usize = 0;
    while i < s.len()
        invariant
            0 <= i <= s@.len(),
            v@ == old(v)@ + s@.subrange(0, i as int),
        decreases s@.len() - i,
    {
        v.push(s[i]);
        assert(s@.subrange(0, i + 1) == s@.subrange(0, i as int).push(s@[i as int]));
        i = i + 1;
    }
    assert(s@.subrange(0, s@.len() as int) == s@);
}

impl Module {
    /// The message that Ethereum's `personal_sign` and `eth_sign` would sign.
    pub fn ethereum_signable_message(what: &[u8], extra: &[u8]) -> (r: Vec<u8>)
        requires
            10 + what@.len() + extra@.len() <= usize::MAX,
        ensures
            r@ == signable_message(what@, extra@),
    {
        let prefix: Vec<u8> = vec![97u8, 99, 97, 108, 97, 32, 101, 118, 109, 58];
        let l: usize = prefix.len() + what.len() + extra.len();
        let digits = decimal_digits(l);
        let mut v: Vec<u8> = vec![
            0x19u8, 69, 116, 104, 101, 114, 101, 117, 109, 32, 83, 105, 103, 110,
            101, 100, 32, 77, 101, 115, 115, 97, 103, 101, 58, 10,
        ];
        append(&mut v, digits.as_slice());
        append(&mut v, prefix.as_slice());
        append(&mut v, what);
        append(&mut v, extra);
        assert(prefix@ == domain_tag());
        assert(v@ == signed_message_header() + decimal(l as nat) + (domain_tag() + what@ + extra@));
        v
    }
}


/// The Keccak-256 digest of the data.
pub uninterp spec fn keccak_256_of(data: Seq<u8>) -> Seq<u8>;

/// The 65-byte uncompressed public key (tag byte, then x and y) that secp256k1
/// recovers from a 64-byte `r || s`, a recovery id and a 32-byte message hash,
/// if any.
pub uninterp spec fn recovered_key_of(rs: Seq<u8>, recovery_id: u8, msg: Seq<u8>) -> Option<Seq<u8>>;

/// The 65-byte uncompressed public key of a 32-byte secret key, if the bytes
/// are a valid secret key.
pub uninterp spec fn public_key_of(secret: Seq<u8>) -> Option<Seq<u8>>;

/// The 64-byte `r || s` and the recovery id of the deterministic secp256k1
/// signature of a 32-byte message hash, if the secret bytes are a valid key.
pub uninterp spec fn signed_of(secret: Seq<u8>, msg: Seq<u8>) -> Option<(Seq<u8>, u8)>;

/// Relies on tiny_keccak's `Keccak::v256` hasher (`update`, then `finalize`)
/// for the Keccak-256 digest of the data.
#[verifier::external_body]
fn keccak_256(data: &[u8]) -> (r: [u8; 32])
    ensures
        r@ == keccak_256_of(data@),
{
    let mut hasher = tiny_keccak::Keccak::v256();
    tiny_keccak::Hasher::update(&mut hasher, data);
    let mut out = [0u8; 32];
    tiny_keccak::Hasher::finalize(hasher, &mut out);
    out
}

/// Relies on libsecp256k1::recover, with the signature read by
/// `Signature::parse_overflowing_slice`, the id by `RecoveryId::parse` and the
/// key written by `PublicKey::serialize`.
#[verifier::external_body]
fn secp256k1_recover(rs: &[u8], recovery_id: u8, msg: &[u8; 32]) -> (r: Option<[u8; 65]>)
    ensures
        r is None <==> recovered_key_of(rs@, recovery_id, msg@) is None,
        r matches Some(k) ==> recovered_key_of(rs@, recovery_id, msg@) == Some(k@),
{
    let sig = libsecp256k1::Signature::parse_overflowing_slice(rs).ok()?;
    let id = libsecp256k1::RecoveryId::parse(recovery_id).ok()?;
    let key = libsecp256k1::recover(&libsecp256k1::Message::parse(msg), &sig, &id).ok()?;
    Some(key.serialize())
}

/// Relies on libsecp256k1's `PublicKey::from_secret_key`, with the key read by
/// `SecretKey::parse` and written by `PublicKey::serialize`.
#[verifier::external_body]
fn secp256k1_public(secret: &[u8; 32]) -> (r: Option<[u8; 65]>)
    ensures
        r is None <==> public_key_of(secret@) is None,
        r matches Some(k) ==> public_key_of(secret@) == Some(k@),
{
    let key = libsecp256k1::SecretKey::parse(secret).ok()?;
    Some(libsecp256k1::PublicKey::from_secret_key(&key).serialize())
}

/// Relies on libsecp256k1::sign (RFC 6979 nonces, so deterministic), with the
/// key read by `SecretKey::parse` and the result written by
/// `Signature::serialize` and `RecoveryId::serialize`.
#[verifier::external_body]
fn secp256k1_sign(secret: &[u8; 32], msg: &[u8; 32]) -> (r: Option<([u8; 64], u8)>)
    ensures
        r is None <==> signed_of(secret@, msg@) is None,
        r matches Some(s) ==> signed_of(secret@, msg@) == Some((s.0@, s.1)),
{
    let key = libsecp256k1::SecretKey::parse(secret).ok()?;
    let (sig, id) = libsecp256k1::sign(&libsecp256k1::Message::parse(msg), &key);
    Some((sig.serialize(), id.serialize()))
}

/// The recovery id that a signature's last byte stands for: Ethereum writes
/// 27 or 28 where secp256k1 counts from zero.
pub open spec fn recovery_id(v: u8) -> u8 {
    if v > 26 {
        (v - 27) as u8
    } else {
        v
    }
}

/// The address of a 65-byte uncompressed public key: the low twenty bytes of
/// the Keccak-256 digest of its coordinates.
pub open spec fn address_of_key(key: Seq<u8>) -> Seq<u8> {
    keccak_256_of(key.subrange(1, 65)).subrange(12, 32)
}

/// The address that signed `signable_message(what, extra)` with `sig`, if
/// the signature recovers to a key.
pub open spec fn recovered_address(sig: Seq<u8>, what: Seq<u8>, extra: Seq<u8>) -> Option<Seq<u8>> {
    match recovered_key_of(
        sig.subrange(0, 64),
        recovery_id(sig[64]),
        keccak_256_of(signable_message(what, extra)),
    ) {
        Some(key) => Some(address_of_key(key)),
        None => None,
    }
}

/// The signature, laid out as `r || s || v`, that the secret signs
/// `signable_message(ascii_hex(what), extra)` with, if the secret is valid.
pub open spec fn signature_by(secret: Seq<u8>, what: Seq<u8>, extra: Seq<u8>) -> Option<Seq<u8>> {
    match signed_of(secret, keccak_256_of(signable_message(ascii_hex(what), extra))) {
        Some((rs, v)) => Some(rs.push(v)),
        None => None,
    }
}

fn address_from_key(key: &[u8; 65]) -> (r: EvmAddress)
    ensures
        r@ == address_of_key(key@),
{
    let mut coords: Vec<u8> = Vec::new();
    let mut i: usize = 1;
    while i < 65
        invariant
            1 <= i <= 65,
            coords@ == key@.subrange(1, i as int),
        decreases 65 - i,
    {
        coords.push(key[i]);
        assert(key@.subrange(1, i + 1) == key@.subrange(1, i as int).push(key@[i as int]));
        i = i + 1;
    }
    let digest = keccak_256(coords.as_slice());
    let mut out = [0u8; 20];
    let mut j: usize = 0;
    while j < 20
        invariant
            0 <= j <= 20,
            digest@.len() == 32,
            out@.len() == 20,
            forall|k: int| 0 <= k < j ==> out@[k] == digest@[k + 12],
        decreases 20 - j,
    {
        out[j] = digest[j + 12];
        j = j + 1;
    }
    assert(out@ == digest@.subrange(12, 32));
    EvmAddress(out)
}

impl Module {
    /// Recovers the EVM address that signed the message framed around `what`
    /// and `extra` (as `personal_sign` frames it).
    pub fn eth_recover(s: &EcdsaSignature, what: &[u8], extra: &[u8]) -> (r: Option<EvmAddress>)
        requires
            10 + what@.len() + extra@.len() <= usize::MAX,
        ensures
            r is None <==> recovered_address(s@, what@, extra@) is None,
            r matches Some(a) ==> recovered_address(s@, what@, extra@) == Some(a@),
    {
        let msg = keccak_256(Self::ethereum_signable_message(what, extra).as_slice());
        let mut rs: Vec<u8> = Vec::new();
        let mut i: usize = 0;
        while i < 64
            invariant
                0 <= i <= 64,
                rs@ == s@.subrange(0, i as int),
            decreases 64 - i,
        {
            rs.push(s.0[i]);
            assert(s@.subrange(0, i + 1) == s@.subrange(0, i as int).push(s@[i as int]));
            i = i + 1;
        }
        let v = s.0[64];
        let id: u8 = if v > 26 { v - 27 } else { v };
        match secp256k1_recover(rs.as_slice(), id, &msg) {
            Some(key) => Some(address_from_key(&key)),
            None => None,
        }
    }

    /// The uncompressed public key of a secret key; `None` when the bytes are
    /// not a valid secret key.
    pub fn eth_public(secret: &[u8; 32]) -> (r: Option<[u8; 65]>)
        ensures
            r is None <==> public_key_of(secret@) is None,
            r matches Some(k) ==> public_key_of(secret@) == Some(k@),
    {
        secp256k1_public(secret)
    }

    /// The EVM address of a secret key; `None` when the bytes are not a valid
    /// secret key.
    pub fn eth_address(secret: &[u8; 32]) -> (r: Option<EvmAddress>)
        ensures
            r is None <==> public_key_of(secret@) is None,
            r matches Some(a) ==> exists|k: Seq<u8>|
                public_key_of(secret@) == Some(k) && a@ == address_of_key(k),
    {
        match Self::eth_public(secret) {
            Some(key) => Some(address_from_key(&key)),
            None => None,
        }
    }

    /// Signs `what`, hex-encoded, followed by `extra`, as a wallet's
    /// `personal_sign` would; `None` when the bytes are not a valid secret key.
    pub fn eth_sign(secret: &[u8; 32], what: &[u8], extra: &[u8]) -> (r: Option<EcdsaSignature>)
        requires
            10 + 2 * what@.len() + extra@.len() <= usize::MAX,
        ensures
            r is None <==> signature_by(secret@, what@, extra@) is None,
            r matches Some(s) ==> signature_by(secret@, what@, extra@) == Some(s@),
    {
        let hex = to_ascii_hex(what);
        proof { lemma_ascii_hex_len(what@); }
        let msg = keccak_256(Self::ethereum_signable_message(hex.as_slice(), extra).as_slice());
        match secp256k1_sign(secret, &msg) {
            Some((rs, v)) => {
                let mut out = [0u8; 65];
                let mut i: usize = 0;
                while i < 64
                    invariant
                        0 <= i <= 64,
                        out@.len() == 65,
                        forall|k: int| 0 <= k < i ==> out@[k] == rs@[k],
                    decreases 64 - i,
                {
                    out[i] = rs[i];
                    i = i + 1;
                }
                out[64] = v;
                assert(out@ == rs@.push(v));
                Some(EcdsaSignature(out))
            },
            None => None,
        }
    }
}

/// Hex encoding doubles the length.
pub proof fn lemma_ascii_hex_len(data: Seq<u8>)
    ensures
        ascii_hex(data).len() == 2 * data.len(),
    decreases data.len(),
{
    if data.len() > 0 {
        lemma_ascii_hex_len(data.drop_last());
    }
}

} // verus!
