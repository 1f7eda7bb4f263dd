//! The app password: how it is hashed for storage, when a new one is
//! refused, and when a typed one matches what is stored.

use vstd::prelude::*;
use vstd::utf8::encode_utf8;
use vstd::string::{StrSliceExecFns, StringExecFns};
use sha2::Digest;
use crate::text::{
    all_ws, hex_digit, is_ws, lemma_trim_ignores_padding, lemma_trim_no_ws, push_char, str_eq, trim, trim_str,
};

verus! {

/// The SHA-256 digest of `data`.
pub uninterp spec fn sha256(data: Seq<u8>) -> Seq<u8>;

/// SHA-256 of `data` (`sha2::Sha256::digest`). Trusted: the digest is the
/// value `sha256` names for these bytes, and it is 32 bytes long (the
/// crate's output size for SHA-256).
#[verifier::external_body]
fn sha256_digest(data: &[u8]) -> (res: Vec<u8>)
    ensures
        res@ == sha256(data@),
        res@.len() == 32,
{
    sha2::Sha256::digest(data).to_vec()
}

/// Two lower-case hex digits per byte, high nibble first, as `{:x}` prints
/// a digest.
pub open spec fn lower_hex(bytes: Seq<u8>) -> Seq<char>
    decreases bytes.len(),
{
    if bytes.len() == 0 {
        Seq::empty()
    } else {
        let b = bytes.last();
        lower_hex(bytes.drop_last()) + seq![hex_digit((b / 16) as nat), hex_digit((b % 16) as nat)]
    }
}

/// What is stored for a password: the hex SHA-256 of its UTF-8 bytes.
pub open spec fn password_hash(password: Seq<char>) -> Seq<char> {
    lower_hex(sha256(encode_utf8(password)))
}

/// A new password is refused when, without surrounding whitespace, it has
/// fewer than four characters.
pub open spec fn password_too_short(password: Seq<char>) -> bool {
    trim(password).len() < 4
}

/// The message a refused password gets.
pub open spec fn too_short_message() -> Seq<char> {
    "Password must be at least 4 characters."@
}

/// A typed password matches a stored record when both, without surrounding
/// whitespace, are the same; with nothing stored nothing matches.
pub open spec fn password_accepted(stored: Option<Seq<char>>, password: Seq<char>) -> bool {
    match stored {
        Some(h) => trim(h) == trim(password_hash(password)),
        None => false,
    }
}

fn push_hex_digit(s: &mut String, n: u8)
    requires
        n < 16,
    ensures
        final(s)@ == old(s)@.push(hex_digit(n as nat)),
{
    let c: char = if n < 10 { (48u8 + n) as char } else { (87u8 + n) as char };
    push_char(s, c);
}

/// Lower-case hex of a byte string.
pub fn to_lower_hex(bytes: &[u8]) -> (res: String)
    ensures
        res@ == lower_hex(bytes@),
{
    let mut res = String::new();
    let n = bytes.len();
    let mut i: usize = 0;
    while i < n
        invariant
            n == bytes@.len(),
            i <= n,
            res@ == lower_hex(bytes@.take(i as int)),
        decreases n - i,
    {
        let b = bytes[i];
        push_hex_digit(&mut res, b / 16);
        push_hex_digit(&mut res, b % 16);
        proof {
            assert(bytes@.take(i + 1).drop_last() =~= bytes@.take(i as int));
            assert(bytes@.take(i + 1).last() == b);
        }
        i = i + 1;
    }
    assert(bytes@.take(n as int) =~= bytes@);
    res
}

/// The hex SHA-256 of the password's UTF-8 bytes.
pub fn hash_password(password: &str) -> (res: String)
    ensures
        res@ == password_hash(password@),
        res@.len() == 64,
{
    let digest = sha256_digest(password.as_bytes());
    proof {
        lemma_lower_hex_shape(digest@);
    }
    to_lower_hex(digest.as_slice())
}

/// What to store for a new password: its hash, or the refusal message when
/// it is too short.
pub fn password_record(password: &str) -> (res: Result<String, String>)
    ensures
        res is Err <==> password_too_short(password@),
        res matches Ok(h) ==> h@ == password_hash(password@),
        res matches Err(e) ==> e@ == too_short_message(),
{
    if trim_str(password).unicode_len() < 4 {
        return Err(String::from_str("Password must be at least 4 characters."));
    }
    Ok(hash_password(password))
}

/// Whether a typed password matches the stored record (`None` when there is
/// none, or it could not be read).
pub fn password_matches(stored: Option<&str>, password: &str) -> (res: bool)
    ensures
        res == password_accepted(
            match stored {
                Some(h) => Some(h@),
                None => None,
            },
            password@,
        ),
{
    match stored {
        None => false,
        Some(h) => {
            let input = hash_password(password);
            str_eq(trim_str(h), trim_str(input.as_str()))
        },
    }
}

/// The hex of `n` bytes has `2 * n` characters, none of them whitespace.
pub proof fn lemma_lower_hex_shape(bytes: Seq<u8>)
    ensures
        lower_hex(bytes).len() == 2 * bytes.len(),
        forall|k: int| 0 <= k < lower_hex(bytes).len() ==> !is_ws(#[trigger] lower_hex(bytes)[k]),
    decreases bytes.len(),
{
    if bytes.len() > 0 {
        lemma_lower_hex_shape(bytes.drop_last());
        let b = bytes.last();
        let hi = (b / 16) as nat;
        let lo = (b % 16) as nat;
        assert(!is_ws(hex_digit(hi)));
        assert(!is_ws(hex_digit(lo)));
    }
}

/// Distinct nibbles have distinct digits.
pub proof fn lemma_hex_digit_injective(x: nat, y: nat)
    requires
        x < 16,
        y < 16,
        hex_digit(x) == hex_digit(y),
    ensures
        x == y,
{
    assert(hex_digit(x) as u32 == if x < 10 { 48 + x } else { 87 + x });
    assert(hex_digit(y) as u32 == if y < 10 { 48 + y } else { 87 + y });
}

/// Distinct byte strings have distinct hex.
pub proof fn lemma_lower_hex_injective(a: Seq<u8>, b: Seq<u8>)
    requires
        lower_hex(a) == lower_hex(b),
    ensures
        a == b,
    decreases a.len(),
{
    lemma_lower_hex_shape(a);
    lemma_lower_hex_shape(b);
    if a.len() > 0 {
        let la = lower_hex(a.drop_last());
        let lb = lower_hex(b.drop_last());
        lemma_lower_hex_shape(a.drop_last());
        lemma_lower_hex_shape(b.drop_last());
        let x = a.last();
        let y = b.last();
        let ha = lower_hex(a);
        assert(ha[2 * a.len() - 2] == hex_digit((x / 16) as nat));
        assert(ha[2 * a.len() - 1] == hex_digit((x % 16) as nat));
        assert(ha[2 * a.len() - 2] == hex_digit((y / 16) as nat));
        assert(ha[2 * a.len() - 1] == hex_digit((y % 16) as nat));
        lemma_hex_digit_injective((x / 16) as nat, (y / 16) as nat);
        lemma_hex_digit_injective((x % 16) as nat, (y % 16) as nat);
        assert(la =~= ha.subrange(0, 2 * a.len() - 2));
        assert(lb =~= ha.subrange(0, 2 * a.len() - 2));
        lemma_lower_hex_injective(a.drop_last(), b.drop_last());
        assert(a =~= a.drop_last().push(x));
        assert(b =~= b.drop_last().push(y));
    } else {
        assert(a =~= b);
    }
}

/// A stored record verifies the password it was made from, also with
/// whitespace (a trailing newline, say) around it.
pub proof fn stored_hash_accepts_its_password(password: Seq<char>, before: Seq<char>, after: Seq<char>)
    requires
        all_ws(before),
        all_ws(after),
    ensures
        password_accepted(Some(before + password_hash(password) + after), password),
{
    lemma_trim_ignores_padding(before, password_hash(password), after);
}

/// A record made from one password accepts another exactly when the two
/// have the same SHA-256 digest.
pub proof fn stored_hash_accepts_only_same_digest(stored_from: Seq<char>, typed: Seq<char>)
    ensures
        password_accepted(Some(password_hash(stored_from)), typed)
            <==> sha256(encode_utf8(stored_from)) == sha256(encode_utf8(typed)),
{
    let a = sha256(encode_utf8(stored_from));
    let b = sha256(encode_utf8(typed));
    lemma_lower_hex_shape(a);
    lemma_lower_hex_shape(b);
    lemma_trim_no_ws(lower_hex(a));
    lemma_trim_no_ws(lower_hex(b));
    if lower_hex(a) == lower_hex(b) {
        lemma_lower_hex_injective(a, b);
    }
}

/// A new password is refused exactly when it has fewer than four characters
/// once surrounding whitespace is left out, so a longer one is never
/// refused because a shorter one was accepted.
pub proof fn refused_exactly_when_short(password: Seq<char>, longer: Seq<char>)
    ensures
        password_too_short(password) <==> trim(password).len() < 4,
        !password_too_short(password) && trim(password).len() <= trim(longer).len()
            ==> !password_too_short(longer),
{
}

/// Byte `k` shows as characters `2k` and `2k + 1` of the hex: its high
/// nibble, then its low one, as lower-case digits.
pub proof fn hex_shows_each_byte_in_place(bytes: Seq<u8>, k: int)
    requires
        0 <= k < bytes.len(),
    ensures
        lower_hex(bytes)[2 * k] == hex_digit((bytes[k] / 16) as nat),
        lower_hex(bytes)[2 * k + 1] == hex_digit((bytes[k] % 16) as nat),
        hex_digit((bytes[k] / 16) as nat) as u32 == if bytes[k] / 16 < 10 { 48 + bytes[k] / 16 } else { 87 + bytes[k] / 16 },
        hex_digit((bytes[k] % 16) as nat) as u32 == if bytes[k] % 16 < 10 { 48 + bytes[k] % 16 } else { 87 + bytes[k] % 16 },
    decreases bytes.len(),
{
    let n = bytes.len() as int;
    lemma_lower_hex_shape(bytes.drop_last());
    if k < n - 1 {
        hex_shows_each_byte_in_place(bytes.drop_last(), k);
        assert(bytes.drop_last()[k] == bytes[k]);
    }
}

} // verus!
