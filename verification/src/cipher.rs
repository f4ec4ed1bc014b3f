//! Encrypted backups: a key derived from a passphrase, and an envelope that carries its salt.
use vstd::prelude::*;
use vstd::utf8::encode_utf8;

use crate::digest::random_bytes;

verus! {

/// How often the key derivation is iterated.
pub const PBKDF2_ITERATIONS: u32 = 10_000;

/// The HMAC-SHA256 of a message under a key.
pub uninterp spec fn hmac(key: Seq<u8>, message: Seq<u8>) -> Seq<u8>;

/// Calls `hmac::Mac` for `hmac::Hmac<sha2::Sha256>`, which takes keys of any length. Claims that
/// the code depends on the key and the message alone and has 32 bytes.
#[verifier::external_body]
pub(crate) fn hmac_sha256(key: &[u8], message: &[u8]) -> (r: Vec<u8>)
    ensures
        r@ == hmac(key@, message@),
        r@.len() == 32,
{
    let mut mac = <hmac::Hmac<sha2::Sha256> as hmac::Mac>::new_from_slice(key).expect("any length");
    hmac::Mac::update(&mut mac, message);
    hmac::Mac::finalize(mac).into_bytes().to_vec()
}

/// Some bytes encrypted with AES-256 in CBC mode with PKCS #7 padding.
pub uninterp spec fn aes_cbc_encrypted(key: Seq<u8>, iv: Seq<u8>, data: Seq<u8>) -> Seq<u8>;

/// What some bytes decrypt to with AES-256 in CBC mode with PKCS #7 padding.
pub uninterp spec fn aes_cbc_decrypted(key: Seq<u8>, iv: Seq<u8>, data: Seq<u8>) -> Option<
    Seq<u8>,
>;

/// Calls `encrypt_padded_vec_mut` of `cbc::Encryptor<aes::Aes256>`. Claims that the result depends
/// on its arguments alone, that it fills up the data to the next whole block of 16 bytes, and that
/// decrypting it with the same key and vector gives the data back. The key has 32 bytes and the vector 16.
#[verifier::external_body]
fn aes_cbc_encrypt(key: &[u8], iv: &[u8], data: &[u8]) -> (r: Vec<u8>)
    requires
        key@.len() == 32,
        iv@.len() == 16,
    ensures
        r@ == aes_cbc_encrypted(key@, iv@, data@),
        r@.len() == 16 * (data@.len() / 16 + 1),
        aes_cbc_decrypted(key@, iv@, r@) == Some(data@),
{
    let c = <cbc::Encryptor<aes::Aes256> as cbc::cipher::KeyIvInit>::new(key.into(), iv.into());
    cbc::cipher::BlockEncryptMut::encrypt_padded_vec_mut::<cbc::cipher::block_padding::Pkcs7>(
        c,
        data,
    )
}

/// Calls `decrypt_padded_vec_mut` of `cbc::Decryptor<aes::Aes256>`. Claims that the outcome
/// depends on its arguments alone. The key has 32 bytes and the vector 16.
#[verifier::external_body]
fn aes_cbc_decrypt(key: &[u8], iv: &[u8], data: &[u8]) -> (r: Option<Vec<u8>>)
    requires
        key@.len() == 32,
        iv@.len() == 16,
    ensures
        match r {
            Some(d) => aes_cbc_decrypted(key@, iv@, data@) == Some(d@),
            None => aes_cbc_decrypted(key@, iv@, data@) is None,
        },
{
    let c = <cbc::Decryptor<aes::Aes256> as cbc::cipher::KeyIvInit>::new(key.into(), iv.into());
    cbc::cipher::BlockDecryptMut::decrypt_padded_vec_mut::<cbc::cipher::block_padding::Pkcs7>(
        c,
        data,
    ).ok()
}

// ---------------------------------------------------------------------------
// key derivation
// ---------------------------------------------------------------------------

/// A number as four bytes, the highest first.
pub open spec fn be_bytes(n: u32) -> Seq<u8> {
    seq![
        (n / 0x100_0000) as u8,
        (n / 0x1_0000 % 0x100) as u8,
        (n / 0x100 % 0x100) as u8,
        (n % 0x100) as u8,
    ]
}

/// Two runs of bytes, combined bit by bit.
pub open spec fn xored(a: Seq<u8>, b: Seq<u8>) -> Seq<u8> {
    Seq::new(a.len(), |i: int| a[i] ^ b[i])
}

/// The authentication code of `start`, taken `n` times more.
pub open spec fn chained(password: Seq<u8>, start: Seq<u8>, n: nat) -> Seq<u8>
    decreases n,
{
    if n == 0 {
        hmac(password, start)
    } else {
        hmac(password, chained(password, start, (n - 1) as nat))
    }
}

/// The first `n + 1` codes of a chain, combined.
pub open spec fn chain_sum(password: Seq<u8>, start: Seq<u8>, n: nat) -> Seq<u8>
    decreases n,
{
    if n == 0 {
        chained(password, start, 0)
    } else {
        xored(chain_sum(password, start, (n - 1) as nat), chained(password, start, n))
    }
}

/// The first `n` blocks of a derived key.
pub open spec fn key_blocks(password: Seq<u8>, salt: Seq<u8>, iterations: nat, n: nat) -> Seq<u8>
    decreases n,
{
    if n == 0 {
        Seq::empty()
    } else {
        key_blocks(password, salt, iterations, (n - 1) as nat) + chain_sum(
            password,
            salt + be_bytes(n as u32),
            if iterations == 0 {
                0
            } else {
                (iterations - 1) as nat
            },
        )
    }
}

/// The key of `len` bytes that PBKDF2 with HMAC-SHA256 derives.
pub open spec fn derived_key(password: Seq<u8>, salt: Seq<u8>, iterations: nat, len: nat) -> Seq<u8> {
    key_blocks(password, salt, iterations, ((len + 31) / 32) as nat).take(len as int)
}

fn chain(password: &[u8], start: &[u8], iterations: u32) -> (r: Vec<u8>)
    ensures
        r@ == chain_sum(
            password@,
            start@,
            if iterations == 0 {
                0
            } else {
                (iterations - 1) as nat
            },
        ),
        r@.len() == 32,
{
    let mut u = hmac_sha256(password, start);
    let mut t: Vec<u8> = Vec::new();
    let mut k: usize = 0;
    while k < u.len()
        invariant
            k <= u@.len(),
            t@ =~= u@.take(k as int),
        decreases u@.len() - k,
    {
        t.push(u[k]);
        k += 1;
    }
    assert(t@ =~= u@);
    let mut n: u32 = 1;
    while n < iterations
        invariant
            1 <= n,
            n <= iterations || n == 1,
            u@ == chained(password@, start@, (n - 1) as nat),
            t@ == chain_sum(password@, start@, (n - 1) as nat),
            u@.len() == 32,
            t@.len() == 32,
        decreases iterations - n,
    {
        u = hmac_sha256(password, u.as_slice());
        let ghost before = t@;
        let mut i: usize = 0;
        while i < 32
            invariant
                i <= 32,
                u@.len() == 32,
                t@.len() == 32,
                before.len() == 32,
                forall|j: int| 0 <= j < i ==> t@[j] == before[j] ^ u@[j],
                forall|j: int| i <= j < 32 ==> t@[j] == before[j],
            decreases 32 - i,
        {
            let x: u8 = t[i] ^ u[i];
            t[i] = x;
            i += 1;
        }
        assert(t@ =~= xored(before, u@));
        n += 1;
    }
    t
}

/// Derives a key of `dk_len` bytes from a password and a salt.
pub fn pbkdf2_hmac_sha256(password: &[u8], salt: &[u8], iterations: u32, dk_len: usize) -> (r: Vec<
    u8,
>)
    requires
        dk_len <= 0x1f_ffff_ffe0,
    ensures
        r@ == derived_key(password@, salt@, iterations as nat, dk_len as nat),
        r@.len() == dk_len,
{
    let blocks: u64 = (dk_len as u64 + 31) / 32;
    let mut out: Vec<u8> = Vec::new();
    let mut i: u64 = 0;
    while i < blocks
        invariant
            i <= blocks,
            blocks <= 0xffff_ffff,
            out@.len() == 32 * i,
            out@ == key_blocks(password@, salt@, iterations as nat, i as nat),
        decreases blocks - i,
    {
        let n: u32 = (i + 1) as u32;
        let mut start = vstd::slice::slice_to_vec(salt);
        start.push((n / 0x100_0000) as u8);
        start.push((n / 0x1_0000 % 0x100) as u8);
        start.push((n / 0x100 % 0x100) as u8);
        start.push((n % 0x100) as u8);
        assert(start@ =~= salt@ + be_bytes(n));
        let mut t = chain(password, start.as_slice(), iterations);
        let ghost before = out@;
        let ghost tv = t@;
        out.append(&mut t);
        assert(out@ =~= before + tv);
        i += 1;
    }
    out.truncate(dk_len);
    assert(out@ =~= derived_key(password@, salt@, iterations as nat, dk_len as nat));
    out
}

// ---------------------------------------------------------------------------
// the envelope
// ---------------------------------------------------------------------------

/// The mark with which an envelope begins: `Salted__`.
pub open spec fn envelope_mark() -> Seq<u8> {
    seq![83u8, 97u8, 108u8, 116u8, 101u8, 100u8, 95u8, 95u8]
}

/// The 48 bytes of key and vector for a passphrase and a salt.
pub open spec fn envelope_key(passphrase: Seq<char>, salt: Seq<u8>) -> Seq<u8> {
    derived_key(encode_utf8(passphrase), salt, PBKDF2_ITERATIONS as nat, 48)
}

/// Some bytes in an envelope: the mark, the salt, and the bytes encrypted with what the
/// passphrase and the salt give.
pub open spec fn enveloped(data: Seq<u8>, passphrase: Seq<char>, salt: Seq<u8>) -> Seq<u8> {
    let key = envelope_key(passphrase, salt);
    envelope_mark() + salt + aes_cbc_encrypted(key.take(32), key.skip(32), data)
}

/// Whether some bytes begin as an envelope does.
pub open spec fn is_envelope(data: Seq<u8>) -> bool {
    data.len() >= 16 && data.take(8) == envelope_mark()
}

/// What an envelope holds for a passphrase.
pub open spec fn opened_envelope(data: Seq<u8>, passphrase: Seq<char>) -> Option<Seq<u8>> {
    let key = envelope_key(passphrase, data.subrange(8, 16));
    aes_cbc_decrypted(key.take(32), key.skip(32), data.skip(16))
}

/// Encrypts some bytes into an envelope with a given salt.
pub fn encrypt_with_salt(data: &[u8], passphrase: &str, salt: &Vec<u8>) -> (r: Vec<u8>)
    requires
        salt@.len() == 8,
    ensures
        r@ == enveloped(data@, passphrase@, salt@),
        is_envelope(r@),
        r@.len() == 16 + 16 * (data@.len() / 16 + 1),
        opened_envelope(r@, passphrase@) == Some(data@),
{
    let key = pbkdf2_hmac_sha256(passphrase.as_bytes(), salt.as_slice(), PBKDF2_ITERATIONS, 48);
    let k = vstd::slice::slice_subrange(key.as_slice(), 0, 32);
    let iv = vstd::slice::slice_subrange(key.as_slice(), 32, 48);
    assert(k@ =~= key@.take(32));
    assert(iv@ =~= key@.skip(32));
    let mut text = aes_cbc_encrypt(k, iv, data);
    let mut out: Vec<u8> = Vec::new();
    out.push(83);
    out.push(97);
    out.push(108);
    out.push(116);
    out.push(101);
    out.push(100);
    out.push(95);
    out.push(95);
    assert(out@ =~= envelope_mark());
    let mut i: usize = 0;
    while i < 8
        invariant
            i <= 8,
            salt@.len() == 8,
            out@ =~= envelope_mark() + salt@.take(i as int),
        decreases 8 - i,
    {
        out.push(salt[i]);
        i += 1;
    }
    assert(out@ =~= envelope_mark() + salt@);
    let ghost ct = text@;
    out.append(&mut text);
    assert(out@ =~= enveloped(data@, passphrase@, salt@));
    assert(out@.take(8) =~= envelope_mark());
    assert(out@.subrange(8, 16) =~= salt@);
    assert(out@.skip(16) =~= ct);
    out
}

/// Encrypts some bytes into an envelope with a random salt.
pub fn encrypt_openssl(data: &[u8], passphrase: &str) -> (r: Vec<u8>)
    ensures
        exists|salt: Seq<u8>|
            salt.len() == 8 && r@ == #[trigger] enveloped(data@, passphrase@, salt),
        is_envelope(r@),
        r@.len() == 16 + 16 * (data@.len() / 16 + 1),
        opened_envelope(r@, passphrase@) == Some(data@),
{
    let salt = random_bytes(8);
    encrypt_with_salt(data, passphrase, &salt)
}

/// Opens an envelope.
pub fn decrypt_openssl(data: &[u8], passphrase: &str) -> (r: Result<Vec<u8>, String>)
    ensures
        match r {
            Ok(d) => is_envelope(data@) && opened_envelope(data@, passphrase@) == Some(d@),
            Err(e) => if is_envelope(data@) {
                opened_envelope(data@, passphrase@) is None && e@
                    == "解密备份失败：口令错误或数据已损坏"@
            } else {
                e@ == "解密备份失败：数据不是有效的加密备份（缺少 Salted__ 头）"@
            },
        },
{
    let marked = data.len() >= 16 && data[0] == 83 && data[1] == 97 && data[2] == 108 && data[3]
        == 116 && data[4] == 101 && data[5] == 100 && data[6] == 95 && data[7] == 95;
    proof {
        if data@.len() >= 16 {
            let m = envelope_mark();
            let h = data@.take(8);
            if marked {
                assert(h =~= m);
            } else if h == m {
                assert(h[0] == m[0] && h[1] == m[1] && h[2] == m[2] && h[3] == m[3]);
                assert(h[4] == m[4] && h[5] == m[5] && h[6] == m[6] && h[7] == m[7]);
            }
        }
    }
    if !marked {
        return Err(
            "解密备份失败：数据不是有效的加密备份（缺少 Salted__ 头）".to_owned(),
        );
    }
    let salt = vstd::slice::slice_subrange(data, 8, 16);
    let text = vstd::slice::slice_subrange(data, 16, data.len());
    assert(text@ =~= data@.skip(16));
    let key = pbkdf2_hmac_sha256(passphrase.as_bytes(), salt, PBKDF2_ITERATIONS, 48);
    let k = vstd::slice::slice_subrange(key.as_slice(), 0, 32);
    let iv = vstd::slice::slice_subrange(key.as_slice(), 32, 48);
    assert(k@ =~= key@.take(32));
    assert(iv@ =~= key@.skip(32));
    match aes_cbc_decrypt(k, iv, text) {
        Some(d) => Ok(d),
        None => Err("解密备份失败：口令错误或数据已损坏".to_owned()),
    }
}

} // verus!
