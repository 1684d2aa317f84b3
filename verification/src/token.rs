//! The session token service.
//!
//! A token carries `{id, email, expires_at}` and a signature keyed by the
//! process-wide secret. Its text is four segments: the identifier (36
//! characters), the expiry as 16 hexadecimal digits, the email, and the
//! signature as 8 hexadecimal digits, separated by colons. The email
//! segment is bounded by position, not by search, so any email text round
//! trips. Decoding verifies shape and signature and fails with
//! `TokenError::Malformed`; it trusts nothing of an unverifiable token.
use vstd::prelude::*;

use crate::ids::{is_canonical_uid, is_canonical_uid_str, is_hex_char, Uid};

verus! {

/// Sixteen to the power `n`.
pub open spec fn pow16(n: int) -> int
    decreases n when n >= 0
{
    if n <= 0 {
        1
    } else {
        16 * pow16(n - 1)
    }
}

/// The hexadecimal digit character for `d`.
pub open spec fn hex_char_of(d: int) -> char {
    if d == 0 {
        '0'
    } else if d == 1 {
        '1'
    } else if d == 2 {
        '2'
    } else if d == 3 {
        '3'
    } else if d == 4 {
        '4'
    } else if d == 5 {
        '5'
    } else if d == 6 {
        '6'
    } else if d == 7 {
        '7'
    } else if d == 8 {
        '8'
    } else if d == 9 {
        '9'
    } else if d == 10 {
        'a'
    } else if d == 11 {
        'b'
    } else if d == 12 {
        'c'
    } else if d == 13 {
        'd'
    } else if d == 14 {
        'e'
    } else {
        'f'
    }
}

/// The value of a hexadecimal digit character.
pub open spec fn hex_val(c: char) -> int {
    if '0' <= c && c <= '9' {
        c as int - 48
    } else if 'a' <= c && c <= 'f' {
        c as int - 87
    } else {
        0
    }
}

/// Every character of `s` is a lowercase hexadecimal digit.
pub open spec fn all_hex(s: Seq<char>) -> bool {
    forall|i: int| 0 <= i < s.len() ==> is_hex_char(#[trigger] s[i])
}

/// The `n` hexadecimal digits of `v`, most significant first.
pub open spec fn hex_chars(v: int, n: int) -> Seq<char>
    decreases n when n >= 0
{
    if n <= 0 {
        Seq::empty()
    } else {
        hex_chars(v / 16, n - 1).push(hex_char_of(v % 16))
    }
}

/// The value hexadecimal digit text denotes, most significant first.
pub open spec fn hex_val_of(s: Seq<char>) -> int
    decreases s.len(),
{
    if s.len() == 0 {
        0
    } else {
        hex_val_of(s.drop_last()) * 16 + hex_val(s.last())
    }
}

proof fn lemma_pow16_pos(n: int)
    requires
        n >= 0,
    ensures
        pow16(n) >= 1,
    decreases n,
{
    if n > 0 {
        lemma_pow16_pos(n - 1);
    }
}

/// Hexadecimal round trip: encoding a value in range and reading the
/// digits back yields the value.
pub proof fn lemma_hex_round_trip(v: int, n: int)
    requires
        n >= 0,
        0 <= v < pow16(n),
    ensures
        hex_chars(v, n).len() == n,
        all_hex(hex_chars(v, n)),
        hex_val_of(hex_chars(v, n)) == v,
    decreases n,
{
    if n == 0 {
    } else {
        lemma_pow16_pos(n - 1);
        assert(v / 16 < pow16(n - 1) && v / 16 >= 0 && 0 <= v % 16 < 16) by (nonlinear_arith)
            requires
                v >= 0,
                v < 16 * pow16(n - 1),
                pow16(n - 1) >= 1,
        ;
        lemma_hex_round_trip(v / 16, n - 1);
        let base = hex_chars(v / 16, n - 1);
        let whole = base.push(hex_char_of(v % 16));
        assert(whole.drop_last() =~= base);
        assert(is_hex_char(hex_char_of(v % 16)));
        assert(hex_val(hex_char_of(v % 16)) == v % 16);
        assert(hex_val_of(whole) == hex_val_of(base) * 16 + (v % 16));
        assert(hex_val_of(whole) == (v / 16) * 16 + (v % 16));
        assert((v / 16) * 16 + (v % 16) == v) by (nonlinear_arith)
            requires
                v >= 0,
        ;
        assert forall|i: int| 0 <= i < whole.len() implies is_hex_char(#[trigger] whole[i]) by {
            if i < base.len() {
                assert(whole[i] == base[i]);
            }
        }
    }
}

fn hex_digit_str(d: u8) -> (r: &'static str)
    requires
        d < 16,
    ensures
        r@ =~= seq![hex_char_of(d as int)],
{
    proof {
        reveal_strlit("0");
        reveal_strlit("1");
        reveal_strlit("2");
        reveal_strlit("3");
        reveal_strlit("4");
        reveal_strlit("5");
        reveal_strlit("6");
        reveal_strlit("7");
        reveal_strlit("8");
        reveal_strlit("9");
        reveal_strlit("a");
        reveal_strlit("b");
        reveal_strlit("c");
        reveal_strlit("d");
        reveal_strlit("e");
        reveal_strlit("f");
    }
    match d {
        0 => "0",
        1 => "1",
        2 => "2",
        3 => "3",
        4 => "4",
        5 => "5",
        6 => "6",
        7 => "7",
        8 => "8",
        9 => "9",
        10 => "a",
        11 => "b",
        12 => "c",
        13 => "d",
        14 => "e",
        _ => "f",
    }
}

/// The low `n` hexadecimal digits of `v`, most significant first.
fn hex_str(v: u64, n: usize) -> (r: String)
    ensures
        r@ == hex_chars(v as int, n as int),
    decreases n,
{
    if n == 0 {
        let s = String::new();
        proof {
            assert(s@ =~= hex_chars(v as int, 0));
        }
        s
    } else {
        let mut s = hex_str(v / 16, n - 1);
        let digit = hex_digit_str((v % 16) as u8);
        s.append(digit);
        proof {
            assert(s@ =~= hex_chars(v as int, n as int));
        }
        s
    }
}

fn hex_val_exec(c: char) -> (r: Option<u8>)
    ensures
        r is Some <==> is_hex_char(c),
        r matches Some(v) ==> v < 16 && v as int == hex_val(c),
{
    if '0' <= c && c <= '9' {
        Some(((c as u32) - 48) as u8)
    } else if 'a' <= c && c <= 'f' {
        Some(((c as u32) - 87) as u8)
    } else {
        None
    }
}

/// Reads the hexadecimal digits of `s` between `from` and `to`.
fn parse_hex_range(s: &str, from: usize, to: usize) -> (r: Option<u64>)
    requires
        from <= to <= s@.len(),
        to - from <= 16,
    ensures
        r is Some <==> all_hex(s@.subrange(from as int, to as int)),
        r matches Some(v) ==> v as int == hex_val_of(s@.subrange(from as int, to as int)),
{
    let ghost sub = s@.subrange(from as int, to as int);
    proof {
        lemma_pow16_values();
    }
    let mut acc: u64 = 0;
    let mut i: usize = from;
    while i < to
        invariant
            from <= i <= to <= s@.len(),
            to - from <= 16,
            sub == s@.subrange(from as int, to as int),
            forall|j: int| from <= j < i ==> is_hex_char(#[trigger] s@[j]),
            (acc as int) == hex_val_of(sub.take(i - from)),
            (acc as int) < pow16(i - from),
            pow16(15) == 0x1000_0000_0000_0000,
            pow16(16) == 0x1_0000_0000_0000_0000,
        decreases to - i,
    {
        let c = s.get_char(i);
        let d = match hex_val_exec(c) {
            Some(d) => d,
            None => {
                proof {
                    assert(sub[i - from] == s@[i as int]);
                }
                return None;
            },
        };
        proof {
            lemma_pow16_mono(i - from, 15);
            assert((acc as int) * 16 + 15 < 0x1_0000_0000_0000_0000) by (nonlinear_arith)
                requires
                    (acc as int) < pow16(i - from),
                    pow16(i - from) <= 0x1000_0000_0000_0000,
                    (acc as int) >= 0,
            ;
            assert(sub.take(i + 1 - from).drop_last() =~= sub.take(i - from));
            assert(sub.take(i + 1 - from).last() == s@[i as int]);
            assert(((acc as int) * 16 + (d as int)) < pow16(i + 1 - from)) by (nonlinear_arith)
                requires
                    (acc as int) < pow16(i - from),
                    d < 16,
                    pow16(i + 1 - from) == 16 * pow16(i - from),
                    (acc as int) >= 0,
            ;
        }
        acc = acc * 16 + (d as u64);
        i += 1;
    }
    proof {
        assert(sub.take(to - from) =~= sub);
        assert forall|k: int| 0 <= k < sub.len() implies is_hex_char(#[trigger] sub[k]) by {
            assert(sub[k] == s@[from + k]);
        }
    }
    Some(acc)
}

proof fn lemma_pow16_mono(a: int, b: int)
    requires
        0 <= a <= b,
    ensures
        pow16(a) <= pow16(b),
    decreases b,
{
    if a < b {
        lemma_pow16_mono(a, b - 1);
        lemma_pow16_pos(b - 1);
    }
}

proof fn lemma_pow16_values()
    ensures
        pow16(8) == 0x1_0000_0000,
        pow16(15) == 0x1000_0000_0000_0000,
        pow16(16) == 0x1_0000_0000_0000_0000,
{
    reveal_with_fuel(pow16, 17);
}

/// The keyed checksum's initial value.
pub const MAC_SEED: u64 = 5381;

/// One checksum step.
pub open spec fn mac_step(h: int, c: char) -> int {
    (h * 33 + c as int) % 0x1_0000_0000
}

/// The checksum of `s` folded onto `h`, first character first.
pub open spec fn mac_fold(s: Seq<char>, h: int) -> int
    decreases s.len(),
{
    if s.len() == 0 {
        h
    } else {
        mac_step(mac_fold(s.drop_last(), h), s.last())
    }
}

/// The signature of a payload under a key.
pub open spec fn sig_of(payload: Seq<char>, key: Seq<char>) -> int {
    mac_fold(key + payload, MAC_SEED as int)
}

proof fn lemma_mac_fold_bound(s: Seq<char>, h: int)
    requires
        0 <= h < 0x1_0000_0000,
    ensures
        0 <= mac_fold(s, h) < 0x1_0000_0000,
    decreases s.len(),
{
    if s.len() > 0 {
        lemma_mac_fold_bound(s.drop_last(), h);
    }
}

proof fn lemma_mac_fold_concat(a: Seq<char>, b: Seq<char>, h: int)
    ensures
        mac_fold(a + b, h) == mac_fold(b, mac_fold(a, h)),
    decreases b.len(),
{
    if b.len() == 0 {
        assert(a + b =~= a);
    } else {
        lemma_mac_fold_concat(a, b.drop_last(), h);
        assert((a + b).drop_last() =~= a + b.drop_last());
        assert((a + b).last() == b.last());
    }
}

/// The checksum of the characters of `s` between `from` and `to`, folded
/// onto `h0`.
fn mac_range(s: &str, from: usize, to: usize, h0: u64) -> (r: u64)
    requires
        from <= to <= s@.len(),
        h0 < 0x1_0000_0000,
    ensures
        r as int == mac_fold(s@.subrange(from as int, to as int), h0 as int),
        r < 0x1_0000_0000,
{
    let ghost sub = s@.subrange(from as int, to as int);
    let mut h: u64 = h0;
    let mut i: usize = from;
    while i < to
        invariant
            from <= i <= to <= s@.len(),
            sub == s@.subrange(from as int, to as int),
            (h as int) == mac_fold(sub.take(i - from), h0 as int),
            h < 0x1_0000_0000,
        decreases to - i,
    {
        let c = s.get_char(i);
        proof {
            assert(sub.take(i + 1 - from).drop_last() =~= sub.take(i - from));
            assert(sub.take(i + 1 - from).last() == s@[i as int]);
        }
        h = (h * 33 + ((c as u32) as u64)) % 0x1_0000_0000;
        i += 1;
    }
    proof {
        assert(sub.take(to - from) =~= sub);
    }
    h
}

/// The signature of `payload` under `key`.
fn sig_exec(payload: &str, key: &str) -> (r: u64)
    ensures
        r as int == sig_of(payload@, key@),
        r < 0x1_0000_0000,
{
    let klen = key.unicode_len();
    let plen = payload.unicode_len();
    let h1 = mac_range(key, 0, klen, MAC_SEED);
    let h2 = mac_range(payload, 0, plen, h1);
    proof {
        assert(key@.subrange(0, key@.len() as int) =~= key@);
        assert(payload@.subrange(0, payload@.len() as int) =~= payload@);
        lemma_mac_fold_concat(key@, payload@, MAC_SEED as int);
    }
    h2
}

/// Why a raw token is rejected: it is malformed — wrong shape or an
/// unverifiable signature.
#[derive(Debug, PartialEq, Eq, Structural, Clone, Copy)]
pub enum TokenError {
    Malformed,
}

/// Mathematical model of a decoded session token.
#[verifier::ext_equal]
pub struct JwtModel {
    pub id: Seq<char>,
    pub email: Seq<char>,
    pub expires_at: i64,
}

/// The identity and expiry a session token carries.
#[derive(Debug, PartialEq)]
pub struct JwtValue {
    pub id: String,
    pub email: String,
    pub expires_at: i64,
}

impl View for JwtValue {
    type V = JwtModel;

    open spec fn view(&self) -> JwtModel {
        JwtModel { id: self.id@, email: self.email@, expires_at: self.expires_at }
    }
}

impl Clone for JwtValue {
    fn clone(&self) -> (r: Self)
        ensures
            r@ == self@,
    {
        JwtValue { id: self.id.clone(), email: self.email.clone(), expires_at: self.expires_at }
    }
}

/// A signed session token in its wire form.
#[derive(Debug, PartialEq)]
pub struct Jwt {
    token: String,
}

impl View for Jwt {
    type V = Seq<char>;

    closed spec fn view(&self) -> Seq<char> {
        self.token@
    }
}

impl Jwt {
    pub fn new(jwt: String) -> (r: Self)
        ensures
            r@ == jwt@,
    {
        Jwt { token: jwt }
    }

    /// The token's text.
    pub fn as_str(&self) -> (r: &str)
        ensures
            r@ == self@,
    {
        self.token.as_str()
    }
}

impl Clone for Jwt {
    fn clone(&self) -> (r: Self)
        ensures
            r@ == self@,
    {
        Jwt { token: self.token.clone() }
    }
}

/// The unsigned part of a token: identifier, expiry digits and email,
/// separated by colons.
pub open spec fn token_payload(id: Seq<char>, email: Seq<char>, expires_at: i64) -> Seq<char> {
    id + seq![':'] + hex_chars(expires_at as int, 16) + seq![':'] + email
}

/// The full token text: the payload, a colon, and the signature digits.
pub open spec fn token_chars(
    id: Seq<char>,
    email: Seq<char>,
    expires_at: i64,
    key: Seq<char>,
) -> Seq<char> {
    let p = token_payload(id, email, expires_at);
    p + seq![':'] + hex_chars(sig_of(p, key), 8)
}

/// The token a text decodes to under a key, if any: the identifier segment
/// must be canonical, the expiry digits hexadecimal and in range, the
/// separators in place, and the signature segment must equal the payload's
/// signature under the key.
pub open spec fn spec_decode_token(s: Seq<char>, key: Seq<char>) -> Option<JwtModel> {
    if s.len() < 63 {
        None
    } else {
        let id = s.subrange(0, 36);
        let exp_seg = s.subrange(37, 53);
        let email = s.subrange(54, s.len() - 9);
        let payload = s.subrange(0, s.len() - 9);
        let sig_seg = s.subrange(s.len() - 8, s.len() as int);
        if is_canonical_uid(id) && s[36] == ':' && all_hex(exp_seg) && s[53] == ':' && hex_val_of(
            exp_seg,
        ) <= i64::MAX as int && s[s.len() - 9] == ':' && all_hex(sig_seg) && hex_val_of(sig_seg)
            == sig_of(payload, key) {
            Some(JwtModel { id, email, expires_at: hex_val_of(exp_seg) as i64 })
        } else {
            None
        }
    }
}

/// Issues the signed token that carries `{id, email, expires_at}` under
/// the process secret `key`.
pub fn encode_token(id: &Uid, email: &str, expires_at: i64, key: &str) -> (t: Jwt)
    requires
        expires_at >= 0,
    ensures
        t@ == token_chars(id@, email@, expires_at, key@),
{
    proof {
        reveal_strlit(":");
    }
    let mut payload = id.to_text();
    payload.append(":");
    let exp_hex = hex_str(expires_at as u64, 16);
    payload.append(exp_hex.as_str());
    payload.append(":");
    payload.append(email);
    proof {
        assert(":"@ =~= seq![':']);
        assert(payload@ =~= token_payload(id@, email@, expires_at));
    }
    let sig = sig_exec(payload.as_str(), key);
    let sig_hex = hex_str(sig, 8);
    let mut token = payload;
    token.append(":");
    token.append(sig_hex.as_str());
    proof {
        assert(token@ =~= token_chars(id@, email@, expires_at, key@));
    }
    Jwt::new(token)
}

/// Decodes and verifies a raw token under the process secret `key`.
pub fn decode_jwt(raw: &str, key: &str) -> (r: Result<JwtValue, TokenError>)
    ensures
        r matches Ok(v) ==> spec_decode_token(raw@, key@) == Some(v@),
        r is Err ==> spec_decode_token(raw@, key@) is None && r == Err::<
            JwtValue,
            TokenError,
        >(TokenError::Malformed),
{
    let len = raw.unicode_len();
    if len < 63 {
        return Err(TokenError::Malformed);
    }
    if raw.get_char(36) != ':' || raw.get_char(53) != ':' || raw.get_char(len - 9) != ':' {
        return Err(TokenError::Malformed);
    }
    let id_str = raw.substring_char(0, 36);
    if !is_canonical_uid_str(id_str) {
        return Err(TokenError::Malformed);
    }
    let exp = match parse_hex_range(raw, 37, 53) {
        Some(v) => v,
        None => {
            return Err(TokenError::Malformed);
        },
    };
    if exp > 0x7fff_ffff_ffff_ffff {
        return Err(TokenError::Malformed);
    }
    let sig_read = match parse_hex_range(raw, len - 8, len) {
        Some(v) => v,
        None => {
            return Err(TokenError::Malformed);
        },
    };
    let klen = key.unicode_len();
    let h1 = mac_range(key, 0, klen, MAC_SEED);
    let sig_computed = mac_range(raw, 0, len - 9, h1);
    proof {
        assert(key@.subrange(0, key@.len() as int) =~= key@);
        lemma_mac_fold_concat(key@, raw@.subrange(0, raw@.len() - 9), MAC_SEED as int);
    }
    if sig_read != sig_computed {
        return Err(TokenError::Malformed);
    }
    let email = raw.substring_char(54, len - 9);
    let v = JwtValue { id: id_str.to_owned(), email: email.to_owned(), expires_at: exp as i64 };
    proof {
        assert(spec_decode_token(raw@, key@) matches Some(m) && m =~= v@);
    }
    Ok(v)
}

/// Whether a session expiring at `expires_at` is still fresh at `now`:
/// strictly in the future, with no grace period.
pub fn is_fresh(expires_at: i64, now: i64) -> (r: bool)
    ensures
        r == (expires_at > now),
{
    expires_at > now
}

/// Token round trip: a token issued for an identity decodes, under the
/// same key, back to exactly that identity and expiry.
pub proof fn lemma_token_round_trip(id: Seq<char>, email: Seq<char>, expires_at: i64, key: Seq<
    char,
>)
    requires
        is_canonical_uid(id),
        0 <= expires_at,
    ensures
        spec_decode_token(token_chars(id, email, expires_at, key), key) == Some(
            JwtModel { id: id, email: email, expires_at: expires_at },
        ),
{
    lemma_pow16_values();
    let p = token_payload(id, email, expires_at);
    let t = token_chars(id, email, expires_at, key);
    lemma_hex_round_trip(expires_at as int, 16);
    lemma_mac_fold_bound(key + p, MAC_SEED as int);
    lemma_hex_round_trip(sig_of(p, key), 8);
    assert(p.len() == 54 + email.len());
    assert(t.len() == p.len() + 9);
    assert(t.subrange(0, 36) =~= id);
    assert(t[36] == ':');
    assert(t.subrange(37, 53) =~= hex_chars(expires_at as int, 16));
    assert(t[53] == ':');
    assert(t.subrange(54, t.len() - 9) =~= email);
    assert(t.subrange(0, t.len() - 9) =~= p);
    assert(t[t.len() - 9] == ':');
    assert(t.subrange(t.len() - 8, t.len() as int) =~= hex_chars(sig_of(p, key), 8));
    assert(spec_decode_token(t, key) matches Some(m) && m =~= (JwtModel {
        id: id,
        email: email,
        expires_at: expires_at,
    }));
}

} // verus!
