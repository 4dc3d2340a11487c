//! One-way password hashing with a fixed salt policy.
//!
//! The salt is one hard-coded value shared by all users — a deliberate
//! compatibility choice, preserved here so that hashes match the ones
//! already stored, and a known weakness of the scheme: a per-user random
//! salt would be stronger but would invalidate every existing hash.

use hmac::KeyInit;
use hmac::Mac;
use vstd::prelude::*;
use vstd::string::StrSliceExecFns;
use vstd::string::StringSliceAdditionalSpecFns;
use crate::aggregate::distinct_strings;
use crate::aggregate::seqs_set;
use crate::aggregate::string_set;
use crate::aggregate::user_perm_tokens;
use crate::config::SecurityConfig;
use crate::entities::Claims;
use crate::entities::SingnedInfo;
use crate::errors::AccessModelError;
use crate::errors::SignError;
use crate::store::credentials_idx;
use crate::store::credentials_match;
use crate::store::username_taken;
use crate::store::AccessModel;
use crate::time::parse_rfc3339;
use crate::time::plain_seq;
use crate::time::rfc3339_format;
use crate::time::valid_instant;
use crate::time::MAX_INSTANT_SECS;
use crate::token::ascii_char;
use crate::token::ascii_seq;
use crate::token::ascii_to_string;
use crate::token::bytes_eq;
use crate::token::claims_bytes;
use crate::token::encode_claims;
use crate::token::find_dot;
use crate::token::first_dot;
use crate::token::header_bytes;
use crate::token::header_vec;
use crate::token::hex_append;
use crate::token::hex_bytes;
use crate::token::lemma_hex_bytes_range;
use crate::token::parse_claims_vec;
use crate::token::plain_bytes;
use crate::token::signing_input;
use crate::token::spec_decode_token;
use crate::token::split3;
use crate::token::sub_vec;
use crate::token::token_bytes;
use crate::token::token_chars;
use crate::token::unhex_prefix;

verus! {

/// The encoded hash `argon2::hash_encoded` produces under its default
/// configuration: a function of the password and salt bytes alone.
pub uninterp spec fn argon2_hash_of(password: Seq<u8>, salt: Seq<u8>) -> Seq<char>;

/// The fixed salt, as bytes. Its text form is the UUID
/// `22f65e79-496a-4b48-8abc-f83e1e52aa4e`.
pub open spec fn fixed_salt_bytes() -> Seq<u8> {
    seq![
        50u8, 50u8, 102u8, 54u8, 53u8, 101u8, 55u8, 57u8, 45u8, 52u8, 57u8, 54u8, 97u8, 45u8,
        52u8, 98u8, 52u8, 56u8, 45u8, 56u8, 97u8, 98u8, 99u8, 45u8, 102u8, 56u8, 51u8, 101u8,
        49u8, 101u8, 53u8, 50u8, 97u8, 97u8, 52u8, 101u8,
    ]
}

/// The fixed salt as a vector.
fn fixed_salt() -> (s: Vec<u8>)
    ensures
        s@ == fixed_salt_bytes(),
        s@.len() == 36,
{
    let s = vec![
        50u8, 50u8, 102u8, 54u8, 53u8, 101u8, 55u8, 57u8, 45u8, 52u8, 57u8, 54u8, 97u8, 45u8,
        52u8, 98u8, 52u8, 56u8, 45u8, 56u8, 97u8, 98u8, 99u8, 45u8, 102u8, 56u8, 51u8, 101u8,
        49u8, 101u8, 53u8, 50u8, 97u8, 97u8, 52u8, 101u8,
    ];
    proof {
        assert(s@ =~= fixed_salt_bytes());
    }
    s
}

/// Relies on `argon2::hash_encoded` (rust-argon2) with
/// `argon2::Config::default()`: for any password of fewer than 2^32 bytes
/// and a salt of 8 to 2^32-1 bytes the call succeeds, and the encoded
/// hash is a deterministic function of the password and salt bytes.
#[verifier::external_body]
fn argon2_hash_encoded(password: &[u8], salt: &[u8]) -> (r: String)
    requires
        8 <= salt@.len() < 0x1_0000_0000,
        password@.len() < 0x1_0000_0000,
    ensures
        r@ == argon2_hash_of(password@, salt@),
{
    argon2::hash_encoded(password, salt, &argon2::Config::default())
        .expect("argon2 accepts any password shorter than 2^32 bytes with this salt")
}

/// The HMAC-SHA256 tag of a message under a key: a function of the key
/// and message bytes alone.
pub uninterp spec fn hmac_sha256_of(key: Seq<u8>, msg: Seq<u8>) -> Seq<u8>;

/// Relies on `hmac::Hmac::<sha2::Sha256>` through `hmac::Mac`
/// (`new_from_slice`, `update`, `finalize`): HMAC accepts keys of any
/// length, and the 32-byte tag is a deterministic function of key and
/// message bytes.
#[verifier::external_body]
pub(crate) fn hmac_sha256(key: &[u8], msg: &[u8]) -> (r: Vec<u8>)
    ensures
        r@ == hmac_sha256_of(key@, msg@),
        r@.len() == 32,
{
    let mut mac = <hmac::Hmac<sha2::Sha256> as KeyInit>::new_from_slice(key)
        .expect("HMAC accepts keys of any length");
    Mac::update(&mut mac, msg);
    Mac::finalize(mac).into_bytes().to_vec()
}

/// The fixed-salt encoded hash of a password given as text.
pub open spec fn password_hash_of(password: Seq<char>) -> Seq<char> {
    argon2_hash_of(vstd::utf8::encode_utf8(password), fixed_salt_bytes())
}

/// Can the password be handed to the hasher? Its UTF-8 form must stay
/// under 2^32 bytes.
pub open spec fn password_encodable(password: Seq<char>) -> bool {
    vstd::utf8::encode_utf8(password).len() < 0x1_0000_0000
}

/// Hash a password under the fixed salt. Deterministic: equal passwords
/// give equal encoded hashes, which is what lets storage match
/// credentials by string equality. Only a password of 2^32 bytes or more
/// is refused, as a fatal error.
pub fn generate_hash(password: &str) -> (r: Result<String, SignError>)
    ensures
        password.spec_bytes().len() < 0x1_0000_0000 ==> (r matches Ok(h) && h@ == argon2_hash_of(
            password.spec_bytes(),
            fixed_salt_bytes(),
        )),
        password.spec_bytes().len() >= 0x1_0000_0000 ==> r == Result::<String, SignError>::Err(
            SignError::FatalError,
        ),
{
    let bytes = password.as_bytes();
    if bytes.len() as u64 >= 0x1_0000_0000u64 {
        return Err(SignError::FatalError);
    }
    let salt = fixed_salt();
    Ok(argon2_hash_encoded(bytes, salt.as_slice()))
}

/// The bytes a secret given as text is keyed with: its UTF-8 form.
pub open spec fn key_bytes_of(secret: Seq<char>) -> Seq<u8> {
    vstd::utf8::encode_utf8(secret)
}

/// Issue a signed token carrying the user id, an expiry `expired_jwt_days`
/// days after `now`, and the given permission-token snapshot. Fails — as a
/// fatal error — only when some permission name cannot be put on the wire.
pub fn generate_jwt(config: &SecurityConfig, user_id: i32, groups: Vec<String>, now: i64) -> (r:
    Result<String, SignError>)
    requires
        valid_instant(now),
        now + (config.expired_jwt_days as int) * 86400 <= MAX_INSTANT_SECS,
    ensures
        ({
            let exp = rfc3339_format(now + (config.expired_jwt_days as int) * 86400);
            if (forall|k: int| 0 <= k < groups@.len() ==> plain_seq((#[trigger] groups@[k])@)) {
                r matches Ok(tok) && tok@ == token_chars(
                    key_bytes_of(config.secret_key@),
                    claims_bytes(user_id as int, exp, groups.deep_view()),
                )
            } else {
                r == Result::<String, SignError>::Err(SignError::FatalError)
            }
        }),
{
    let claims = Claims::new(user_id, now, config.expired_jwt_days, groups);
    let cb = match encode_claims(&claims) {
        Some(v) => v,
        None => {
            return Err(SignError::FatalError);
        },
    };
    let hv = header_vec();
    let mut si: Vec<u8> = Vec::new();
    hex_append(&mut si, &hv);
    si.push(46);
    hex_append(&mut si, &cb);
    proof {
        assert(si@ =~= signing_input(cb@));
    }
    let key_b = config.secret_key.as_str().as_bytes();
    let tag = hmac_sha256(key_b, si.as_slice());
    let mut out = si;
    out.push(46);
    hex_append(&mut out, &tag);
    proof {
        assert(out@ =~= token_bytes(key_bytes_of(config.secret_key@), cb@));
        lemma_hex_bytes_range(header_bytes());
        lemma_hex_bytes_range(cb@);
        lemma_hex_bytes_range(hmac_sha256_of(key_bytes_of(config.secret_key@), signing_input(cb@)));
        let ha = hex_bytes(header_bytes());
        let hm = hex_bytes(cb@);
        let hc = hex_bytes(hmac_sha256_of(key_bytes_of(config.secret_key@), signing_input(cb@)));
        assert forall|i: int| 0 <= i < out@.len() implies (#[trigger] out@[i]) < 0x80 by {
            assert(out@ =~= ha + seq![46u8] + hm + seq![46u8] + hc);
            if i < ha.len() {
                assert(out@[i] == ha[i]);
            } else if i == ha.len() {
            } else if i < ha.len() + 1 + hm.len() {
                assert(out@[i] == hm[i - ha.len() - 1]);
            } else if i == ha.len() + 1 + hm.len() {
            } else {
                assert(out@[i] == hc[i - ha.len() - 1 - hm.len() - 1]);
            }
        }
    }
    Ok(ascii_to_string(out))
}

/// Decode and verify a token: exact header, signature under this
/// configuration's secret, canonical claims, and an expiry after `now`.
/// Every failure is the single `VerificationError`; nothing about the
/// cause leaks to the caller.
pub fn decode_jwt(config: &SecurityConfig, jwt_token: &str, now: i64) -> (r: Result<
    Claims,
    SignError,
>)
    ensures
        ({
            let d = spec_decode_token(key_bytes_of(config.secret_key@), jwt_token@, now);
            match d {
                Some((u, e, ps)) => r matches Ok(c) && c.user_id as int == u && c.expired_at@ == e
                    && c.permissions.deep_view() == ps,
                None => r == Result::<Claims, SignError>::Err(SignError::VerificationError),
            }
        }),
{
    if !jwt_token.is_ascii() {
        proof {
            assert(!ascii_seq(jwt_token@)) by {
                if ascii_seq(jwt_token@) {
                    assert forall|i: int|
                        0 <= i < jwt_token@.len() implies '\0' <= #[trigger] jwt_token@[i]
                        <= '\u{7f}' by {
                        assert(ascii_char(jwt_token@[i]));
                    }
                }
            }
        }
        return Err(SignError::VerificationError);
    }
    let bytes = jwt_token.as_bytes_vec();
    proof {
        vstd::string::is_ascii_spec_bytes(jwt_token);
        assert forall|j: int| 0 <= j < bytes@.len() implies #[trigger] bytes@[j] == plain_bytes(
            jwt_token@,
        )[j] by {
            assert(bytes@[j] == jwt_token@[j] as u8);
        }
        assert(bytes@ =~= plain_bytes(jwt_token@));
    }
    let ghost b = plain_bytes(jwt_token@);
    let i = match find_dot(&bytes, 0) {
        Some(i) => i,
        None => {
            proof {
                assert(bytes@.subrange(0, bytes@.len() as int) =~= b);
            }
            return Err(SignError::VerificationError);
        },
    };
    proof {
        assert(bytes@.subrange(0, bytes@.len() as int) =~= b);
    }
    let j = match find_dot(&bytes, i + 1) {
        Some(j) => j,
        None => {
            return Err(SignError::VerificationError);
        },
    };
    let a = sub_vec(&bytes, 0, i);
    let m = sub_vec(&bytes, i + 1, j);
    let c_part = sub_vec(&bytes, j + 1, bytes.len());
    proof {
        let rest = b.subrange(i as int + 1, b.len() as int);
        assert(first_dot(rest) == Some(j - (i + 1)));
        assert(rest.subrange(0, j - i - 1) =~= b.subrange(i as int + 1, j as int));
        assert(rest.subrange(j - i - 1 + 1, rest.len() as int) =~= b.subrange(
            j as int + 1,
            b.len() as int,
        ));
        assert(split3(b) == Some((a@, m@, c_part@)));
    }
    let hv = header_vec();
    let mut ha: Vec<u8> = Vec::new();
    hex_append(&mut ha, &hv);
    if !bytes_eq(&a, &ha) {
        return Err(SignError::VerificationError);
    }
    let si = sub_vec(&bytes, 0, j);
    proof {
        assert(si@ =~= a@ + seq![46u8] + m@);
    }
    let key_b = config.secret_key.as_str().as_bytes();
    let tag = hmac_sha256(key_b, si.as_slice());
    let mut hc: Vec<u8> = Vec::new();
    hex_append(&mut hc, &tag);
    if !bytes_eq(&c_part, &hc) {
        return Err(SignError::VerificationError);
    }
    let cl = match unhex_prefix(&m, m.len()) {
        Some(v) => v,
        None => {
            proof {
                assert(m@.subrange(0, m@.len() as int) =~= m@);
            }
            return Err(SignError::VerificationError);
        },
    };
    proof {
        assert(m@.subrange(0, m@.len() as int) =~= m@);
    }
    let (uid, e_str, perms) = match parse_claims_vec(&cl) {
        Some(t) => t,
        None => {
            return Err(SignError::VerificationError);
        },
    };
    match parse_rfc3339(e_str.as_str()) {
        None => Err(SignError::VerificationError),
        Some(t) => {
            if t > now {
                Ok(Claims { user_id: uid, expired_at: e_str, permissions: perms })
            } else {
                Err(SignError::VerificationError)
            }
        },
    }
}

/// The fast check a gateway makes on every request, plus the live
/// re-derivation: verify the token, then re-query the current permission
/// set of its user instead of trusting the embedded snapshot.
pub fn verificate_jwt_token_and_enrich_perms(
    verificator: &AccessModel,
    config: &SecurityConfig,
    jwt_token: &str,
    now: i64,
) -> (r: Result<Vec<String>, SignError>)
    requires
        verificator.wf(),
    ensures
        ({
            let d = spec_decode_token(key_bytes_of(config.secret_key@), jwt_token@, now);
            match d {
                Some((u, e, ps)) => r matches Ok(v) && string_set(v@) == user_perm_tokens(
                    *verificator,
                    u as i32,
                ) && distinct_strings(v@),
                None => r == Result::<Vec<String>, SignError>::Err(SignError::VerificationError),
            }
        }),
{
    let claims = match decode_jwt(config, jwt_token, now) {
        Ok(c) => c,
        Err(e) => {
            return Err(e);
        },
    };
    match verificator.get_users_perms(&claims.user_id) {
        Ok(perms) => Ok(perms),
        Err(_) => Err(SignError::FatalError),
    }
}

/// Is the sign-in refused? Exactly when no non-deleted user row matches
/// the username together with the fixed-salt hash of the password — one
/// refusal for a missing username and for a wrong password alike.
pub open spec fn sign_in_denied(model: AccessModel, username: Seq<char>, password: Seq<char>) -> bool {
    !credentials_match(model.users.rows@, username, password_hash_of(password))
}

/// Sign a user in: hash the password, let storage match the credentials
/// exactly, aggregate the user's current permission tokens, and issue a
/// signed token carrying them.
pub fn sign_in(
    verificator: &AccessModel,
    security_config: &SecurityConfig,
    username: String,
    password: String,
    now: i64,
) -> (r: Result<SingnedInfo, SignError>)
    requires
        verificator.wf(),
        valid_instant(now),
        now + (security_config.expired_jwt_days as int) * 86400 <= MAX_INSTANT_SECS,
    ensures
        !password_encodable(password@) ==> r == Result::<SingnedInfo, SignError>::Err(
            SignError::FatalError,
        ),
        password_encodable(password@) && sign_in_denied(*verificator, username@, password@) ==> r
            == Result::<SingnedInfo, SignError>::Err(SignError::VerificationError),
        password_encodable(password@) && !sign_in_denied(*verificator, username@, password@) ==> ({
            let uid = verificator.users.rows@[credentials_idx(
                verificator.users.rows@,
                username@,
                password_hash_of(password@),
            )].user_id;
            let tokens = user_perm_tokens(*verificator, uid);
            let exp = rfc3339_format(now + (security_config.expired_jwt_days as int) * 86400);
            if (forall|s: Seq<char>| tokens.contains(s) ==> plain_seq(s)) {
                r matches Ok(si) && si.user_id == uid && (exists|ps: Seq<Seq<char>>|
                    seqs_set(ps) == tokens && si.jwt_token@ == token_chars(
                        key_bytes_of(security_config.secret_key@),
                        claims_bytes(uid as int, exp, ps),
                    ))
            } else {
                r == Result::<SingnedInfo, SignError>::Err(SignError::FatalError)
            }
        }),
{
    let hash = match generate_hash(password.as_str()) {
        Ok(hash) => hash,
        Err(_) => {
            return Err(SignError::FatalError);
        },
    };
    let user_id = match verificator.users.verificate_default(&username, &hash) {
        Ok(user_id) => user_id,
        Err(AccessModelError::NotFoundError) => {
            return Err(SignError::VerificationError);
        },
        Err(AccessModelError::TemporaryError) => {
            return Err(SignError::TemporaryError);
        },
        Err(_) => {
            return Err(SignError::FatalError);
        },
    };
    let groups = match verificator.get_users_perms(&user_id) {
        Ok(groups) => groups,
        Err(_) => {
            return Err(SignError::FatalError);
        },
    };
    let ghost tokens = user_perm_tokens(*verificator, user_id);
    let ghost dv = groups.deep_view();
    proof {
        assert forall|s: Seq<char>| seqs_set(dv).contains(s) implies tokens.contains(s) by {
            let k = choose|k: int| 0 <= k < dv.len() && #[trigger] dv[k] == s;
            assert(groups@[k]@ == s);
            assert(string_set(groups@).contains(s));
        }
        assert forall|s: Seq<char>| tokens.contains(s) implies seqs_set(dv).contains(s) by {
            assert(string_set(groups@).contains(s));
            let k = choose|k: int| 0 <= k < groups@.len() && (#[trigger] groups@[k])@ == s;
            assert(dv[k] == s);
        }
        assert(seqs_set(dv) =~= tokens);
    }
    let token_str = match generate_jwt(security_config, user_id, groups, now) {
        Ok(jwt) => jwt,
        Err(_) => {
            proof {
                assert(!(forall|s: Seq<char>| tokens.contains(s) ==> plain_seq(s))) by {
                    assert(exists|k: int|
                        0 <= k < groups@.len() && !plain_seq((#[trigger] groups@[k])@));
                    let k = choose|k: int|
                        0 <= k < groups@.len() && !plain_seq((#[trigger] groups@[k])@);
                    assert(dv[k] == groups@[k]@);
                    assert(seqs_set(dv).contains(dv[k]));
                    assert(tokens.contains(dv[k]));
                }
            }
            return Err(SignError::FatalError);
        },
    };
    proof {
        if forall|s: Seq<char>| tokens.contains(s) ==> plain_seq(s) {
        } else {
            let s = choose|s: Seq<char>| tokens.contains(s) && !plain_seq(s);
            assert(seqs_set(dv).contains(s));
            let k = choose|k: int| 0 <= k < dv.len() && #[trigger] dv[k] == s;
            assert(!plain_seq(groups@[k]@));
        }
    }
    Ok(SingnedInfo::new(user_id, token_str))
}

/// Sign-in denial is uniform: a username nobody carries and an existing
/// username with a password whose hash matches no row refuse the sign-in
/// the same way — as a credentials mismatch, with nothing to tell the
/// two causes apart.
pub proof fn lemma_sign_in_denial_uniform(
    model: AccessModel,
    u1: Seq<char>,
    p1: Seq<char>,
    u2: Seq<char>,
    p2: Seq<char>,
)
    requires
        !username_taken(model.users.rows@, u1),
        forall|i: int|
            0 <= i < model.users.rows@.len() && (#[trigger] model.users.rows@[i]).username@ == u2
                ==> model.users.rows@[i].password_hash@ != password_hash_of(p2),
    ensures
        sign_in_denied(model, u1, p1),
        sign_in_denied(model, u2, p2),
{
    let rows = model.users.rows@;
    if credentials_match(rows, u1, password_hash_of(p1)) {
        let i = choose|i: int|
            0 <= i < rows.len() && !rows[i].is_deleted && rows[i].username@ == u1
                && rows[i].password_hash@ == password_hash_of(p1);
        assert(username_taken(rows, u1));
    }
    if credentials_match(rows, u2, password_hash_of(p2)) {
        let i = choose|i: int|
            0 <= i < rows.len() && !rows[i].is_deleted && rows[i].username@ == u2
                && rows[i].password_hash@ == password_hash_of(p2);
        assert(rows[i].password_hash@ != password_hash_of(p2));
    }
}

} // verus!
