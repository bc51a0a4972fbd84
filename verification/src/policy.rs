//! The policy and capability engine: scope parsing, anchored glob matching,
//! permission checks, and minting and validating scoped, expiring tokens.
//!
//! A token is serialized as a sequence of length-prefixed fields (nonce,
//! session id, issue and expiry times, scope count, scopes) followed by the
//! lowercase hex SHA-256 of the field part and the signing secret. The
//! secret is injected by the caller at every call; the engine keeps no
//! global state.

use vstd::prelude::*;
use crate::text::{
    self, dec_seq, field_enc, field_parse, find_char_from, hex_seq, parse_dec,
};
use crate::types::{CapabilityToken, CoreError, Scope};
use crate::runtime::{self, TIME_MAX};

verus! {

/// Mathematical view of a capability token.
pub struct TokenV {
    pub nonce: Seq<char>,
    pub scopes: Seq<Seq<char>>,
    pub ttl_seconds: int,
    pub session_id: Seq<char>,
    pub expires_at: int,
    pub issued_at: int,
}

impl View for CapabilityToken {
    type V = TokenV;

    open spec fn view(&self) -> TokenV {
        TokenV {
            nonce: self.nonce@,
            scopes: self.scopes.deep_view(),
            ttl_seconds: self.ttl_seconds as int,
            session_id: self.session_id@,
            expires_at: self.expires_at as int,
            issued_at: self.issued_at as int,
        }
    }
}

/// Mathematical view of a parsed scope.
pub struct ScopeV {
    pub action_type: Seq<char>,
    pub operation: Seq<char>,
    pub resource_pattern: Seq<char>,
}

impl View for Scope {
    type V = ScopeV;

    open spec fn view(&self) -> ScopeV {
        ScopeV {
            action_type: self.action_type@,
            operation: self.operation@,
            resource_pattern: self.resource_pattern@,
        }
    }
}

/// Anchored glob match: `*` matches any run of characters, every other
/// pattern character matches itself, and the whole resource must be
/// covered.
pub open spec fn glob_match(p: Seq<char>, s: Seq<char>) -> bool
    decreases p.len(), s.len(),
{
    if p.len() == 0 {
        s.len() == 0
    } else if p[0] == '*' {
        glob_match(p.drop_first(), s) || (s.len() > 0 && glob_match(p, s.drop_first()))
    } else {
        s.len() > 0 && p[0] == s[0] && glob_match(p.drop_first(), s.drop_first())
    }
}

/// Decide [`glob_match`] on the suffixes `p[i..]` and `s[j..]`.
fn glob_match_at(p: &Vec<char>, i: usize, s: &Vec<char>, j: usize) -> (r: bool)
    requires
        i <= p@.len(),
        j <= s@.len(),
    ensures
        r == glob_match(
            p@.subrange(i as int, p@.len() as int),
            s@.subrange(j as int, s@.len() as int),
        ),
    decreases p@.len() - i, s@.len() - j,
{
    let ghost ps = p@.subrange(i as int, p@.len() as int);
    let ghost ss = s@.subrange(j as int, s@.len() as int);
    if i == p.len() {
        j == s.len()
    } else if p[i] == '*' {
        proof {
            assert(ps[0] == '*');
            assert(ps.drop_first() =~= p@.subrange(i + 1, p@.len() as int));
        }
        if glob_match_at(p, i + 1, s, j) {
            true
        } else if j < s.len() {
            proof {
                assert(ss.drop_first() =~= s@.subrange(j + 1, s@.len() as int));
            }
            glob_match_at(p, i, s, j + 1)
        } else {
            false
        }
    } else {
        proof {
            assert(ps[0] == p@[i as int]);
        }
        if j < s.len() && p[i] == s[j] {
            proof {
                assert(ss[0] == s@[j as int]);
                assert(ps.drop_first() =~= p@.subrange(i + 1, p@.len() as int));
                assert(ss.drop_first() =~= s@.subrange(j + 1, s@.len() as int));
            }
            glob_match_at(p, i + 1, s, j + 1)
        } else {
            false
        }
    }
}

/// Decide [`glob_match`] on whole strings.
pub fn glob_matches(pattern: &str, resource: &str) -> (r: bool)
    ensures
        r == glob_match(pattern@, resource@),
{
    let p = text::str_chars(pattern);
    let s = text::str_chars(resource);
    let r = glob_match_at(&p, 0, &s, 0);
    proof {
        assert(p@.subrange(0, p@.len() as int) =~= pattern@);
        assert(s@.subrange(0, s@.len() as int) =~= resource@);
    }
    r
}

/// A scope string parsed into its three parts: everything before the first
/// colon, everything between the first and the second, and everything after
/// the second (so a resource glob may itself contain colons).
pub open spec fn parse_scope(s: Seq<char>) -> Option<ScopeV> {
    match find_char_from(s, 0, ':') {
        None => None,
        Some(c1) => match find_char_from(s, c1 + 1, ':') {
            None => None,
            Some(c2) => Some(
                ScopeV {
                    action_type: s.subrange(0, c1),
                    operation: s.subrange(c1 + 1, c2),
                    resource_pattern: s.subrange(c2 + 1, s.len() as int),
                },
            ),
        },
    }
}

/// The scope string `s` authorizes `action_type` on `resource`.
pub open spec fn scope_grants(s: Seq<char>, action_type: Seq<char>, resource: Seq<char>) -> bool {
    match parse_scope(s) {
        Some(sc) => sc.action_type == action_type && glob_match(sc.resource_pattern, resource),
        None => false,
    }
}

impl Scope {
    /// Split a scope string `domain:operation:resource_glob`; fails when it
    /// has fewer than three parts.
    pub fn parse(scope_str: &str) -> (r: Result<Scope, CoreError>)
        ensures
            match r {
                Ok(sc) => parse_scope(scope_str@) == Some(sc@),
                Err(e) => parse_scope(scope_str@) is None && e is InvalidScope,
            },
    {
        let v = text::str_chars(scope_str);
        let c1 = match text::find_char(&v, 0, ':') {
            None => {
                return Err(CoreError::InvalidScope);
            },
            Some(c1) => c1,
        };
        let c2 = match text::find_char(&v, c1 + 1, ':') {
            None => {
                return Err(CoreError::InvalidScope);
            },
            Some(c2) => c2,
        };
        let n = v.len();
        proof {
            assert(c1 < n && c2 < n);
        }
        let action_type = text::chars_to_string(&text::subrange_chars(&v, 0, c1));
        let operation = text::chars_to_string(&text::subrange_chars(&v, c1 + 1, c2));
        let resource_pattern = text::chars_to_string(&text::subrange_chars(&v, c2 + 1, n));
        Ok(Scope { action_type, operation, resource_pattern })
    }

    /// The scope authorizes `action_type` on `resource`: equal domain and
    /// an anchored glob match of the resource pattern.
    pub fn matches(&self, action_type: &str, resource: &str) -> (r: bool)
        ensures
            r == (self@.action_type == action_type@ && glob_match(
                self@.resource_pattern,
                resource@,
            )),
    {
        if !text::str_eq(self.action_type.as_str(), action_type) {
            return false;
        }
        glob_matches(self.resource_pattern.as_str(), resource)
    }
}

/// A token grants `action_type` on `resource` iff some scope of it does.
pub fn check_permission(token: &CapabilityToken, action_type: &str, resource: &str) -> (r: bool)
    ensures
        r == exists|k: int|
            0 <= k < token.scopes@.len() && scope_grants(
                token.scopes@[k]@,
                action_type@,
                resource@,
            ),
{
    let n = token.scopes.len();
    for i in 0..n
        invariant
            n == token.scopes@.len(),
            forall|k: int|
                0 <= k < i ==> !scope_grants(token.scopes@[k]@, action_type@, resource@),
    {
        let scope_str: &String = &token.scopes[i];
        match Scope::parse(scope_str.as_str()) {
            Ok(sc) => {
                if sc.matches(action_type, resource) {
                    proof {
                        assert(scope_grants(token.scopes@[i as int]@, action_type@, resource@));
                    }
                    return true;
                }
            },
            Err(_) => {},
        }
    }
    false
}

/// Revocation by nonce is delegated to the external store; in-process it is
/// a no-op that always succeeds.
pub fn revoke_token_nonce(_nonce: &str) -> (r: Result<(), CoreError>)
    ensures
        r is Ok,
{
    Ok(())
}

/// Field encoding of a scope list, one length-prefixed field per scope.
pub open spec fn scopes_enc(ss: Seq<Seq<char>>) -> Seq<char>
    decreases ss.len(),
{
    if ss.len() == 0 {
        Seq::empty()
    } else {
        field_enc(ss[0]) + scopes_enc(ss.drop_first())
    }
}

/// The field part of a serialized token: nonce, session id, issue time,
/// expiry time, scope count, scopes.
pub open spec fn claims_enc(
    nonce: Seq<char>,
    session_id: Seq<char>,
    issued_at: int,
    expires_at: int,
    ss: Seq<Seq<char>>,
) -> Seq<char> {
    field_enc(nonce) + field_enc(session_id) + field_enc(dec_seq(issued_at as nat)) + field_enc(
        dec_seq(expires_at as nat),
    ) + field_enc(dec_seq(ss.len())) + scopes_enc(ss)
}

/// A whole serialized token: the field part followed by the lowercase hex
/// SHA-256 of the field part and the secret.
pub open spec fn token_enc(t: TokenV, secret: Seq<char>) -> Seq<char> {
    let p = claims_enc(t.nonce, t.session_id, t.issued_at, t.expires_at, t.scopes);
    p + hex_seq(runtime::sha256_pair_digest(p, secret))
}

/// Parse `k` consecutive fields; yields them and the remainder.
pub open spec fn parse_scopes_n(t: Seq<char>, k: nat) -> Option<(Seq<Seq<char>>, Seq<char>)>
    decreases k,
{
    if k == 0 {
        Some((Seq::empty(), t))
    } else {
        match field_parse(t) {
            None => None,
            Some(fr) => match parse_scopes_n(fr.1, (k - 1) as nat) {
                None => None,
                Some(sr) => Some((seq![fr.0] + sr.0, sr.1)),
            },
        }
    }
}

/// Parse the field part of a serialized token; yields the token view and
/// the remainder (the signature part). Times above `i64::MAX` are refused.
pub open spec fn parse_claims(t: Seq<char>) -> Option<(TokenV, Seq<char>)> {
    match field_parse(t) {
        None => None,
        Some(f1) => match field_parse(f1.1) {
            None => None,
            Some(f2) => match field_parse(f2.1) {
                None => None,
                Some(f3) => match parse_dec(f3.0) {
                    None => None,
                    Some(issued) => if issued > i64::MAX as nat {
                        None
                    } else {
                        match field_parse(f3.1) {
                            None => None,
                            Some(f4) => match parse_dec(f4.0) {
                                None => None,
                                Some(expires) => if expires > i64::MAX as nat {
                                    None
                                } else {
                                    match field_parse(f4.1) {
                                        None => None,
                                        Some(f5) => match parse_dec(f5.0) {
                                            None => None,
                                            Some(count) => match parse_scopes_n(f5.1, count) {
                                                None => None,
                                                Some(sr) => Some(
                                                    (
                                                        TokenV {
                                                            nonce: f1.0,
                                                            session_id: f2.0,
                                                            issued_at: issued as int,
                                                            expires_at: expires as int,
                                                            ttl_seconds: expires - issued,
                                                            scopes: sr.0,
                                                        },
                                                        sr.1,
                                                    ),
                                                ),
                                            },
                                        },
                                    }
                                },
                            },
                        }
                    },
                },
            },
        },
    }
}

/// What validating a token string means: the field part must parse, the
/// trailing signature must equal the hash of the field part and the
/// secret, and `now` must not be past the expiry time.
pub open spec fn validate_spec(t: Seq<char>, secret: Seq<char>, now: i64) -> Result<
    TokenV,
    CoreError,
> {
    match parse_claims(t) {
        None => Err(CoreError::TokenInvalid),
        Some(pr) => {
            let payload = t.subrange(0, t.len() - pr.1.len());
            if pr.1 != hex_seq(runtime::sha256_pair_digest(payload, secret)) {
                Err(CoreError::TokenInvalid)
            } else if pr.0.expires_at < now as int {
                Err(CoreError::TokenExpired)
            } else {
                Ok(pr.0)
            }
        },
    }
}

/// Serialize and sign a token with the given secret.
pub fn encode_token(token: &CapabilityToken, secret: &str) -> (r: String)
    requires
        0 <= token.issued_at,
        0 <= token.expires_at,
    ensures
        r@ == token_enc(token@, secret@),
{
    proof {
        assert(usize::MAX <= u64::MAX);
    }
    let ghost full = claims_enc(
        token@.nonce,
        token@.session_id,
        token@.issued_at,
        token@.expires_at,
        token@.scopes,
    );
    let mut payload: Vec<char> = Vec::new();
    let nonce_chars = text::str_chars(token.nonce.as_str());
    text::push_field(&mut payload, &nonce_chars);
    let session_chars = text::str_chars(token.session_id.as_str());
    text::push_field(&mut payload, &session_chars);
    let issued_digits = text::u64_to_dec(token.issued_at as u64);
    text::push_field(&mut payload, &issued_digits);
    let expires_digits = text::u64_to_dec(token.expires_at as u64);
    text::push_field(&mut payload, &expires_digits);
    let n = token.scopes.len();
    let count_digits = text::u64_to_dec(n as u64);
    text::push_field(&mut payload, &count_digits);
    proof {
        assert(token@.scopes.len() == token.scopes@.len());
        assert(token@.scopes.subrange(0, n as int) =~= token@.scopes);
        assert(payload@ + scopes_enc(token@.scopes.subrange(0, n as int)) =~= full);
    }
    for i in 0..n
        invariant
            n == token.scopes@.len(),
            0 <= token.issued_at,
            0 <= token.expires_at,
            n == token@.scopes.len(),
            payload@ + scopes_enc(token@.scopes.subrange(i as int, n as int)) == full,
    {
        let sc = text::str_chars(token.scopes[i].as_str());
        proof {
            assert(usize::MAX <= u64::MAX);
            assert(token@.scopes[i as int] == token.scopes@[i as int]@);
        }
        text::push_field(&mut payload, &sc);
        proof {
            let suf = token@.scopes.subrange(i as int, n as int);
            assert(suf.len() > 0);
            assert(suf[0] == token@.scopes[i as int]);
            assert(suf.drop_first() =~= token@.scopes.subrange(i + 1, n as int));
            assert(scopes_enc(suf) == field_enc(suf[0]) + scopes_enc(suf.drop_first()));
            assert(payload@ + scopes_enc(token@.scopes.subrange(i + 1, n as int)) =~= full);
        }
    }
    proof {
        assert(token@.scopes.subrange(n as int, n as int) =~= Seq::<Seq<char>>::empty());
        assert(scopes_enc(Seq::<Seq<char>>::empty()) =~= Seq::<char>::empty());
        assert(payload@ =~= full);
    }
    let payload_s = text::chars_to_string(&payload);
    let digest = runtime::sha256_pair(payload_s.as_str(), secret);
    let sig = text::bytes_to_hex(&digest);
    let mut out = payload;
    text::push_vec_chars(&mut out, &sig);
    let r = text::chars_to_string(&out);
    proof {
        assert(r@ =~= token_enc(token@, secret@));
    }
    r
}

/// Mint a fresh token: a new nonce, `issued_at` stamped from the clock,
/// `expires_at = issued_at + ttl_seconds`.
pub fn mint_capability_token(
    scopes: Vec<String>,
    ttl_seconds: i64,
    session_id: String,
) -> (r: Result<CapabilityToken, CoreError>)
    requires
        0 <= ttl_seconds <= TIME_MAX,
    ensures
        r is Ok,
        r matches Ok(t) ==> {
            &&& t@.scopes == scopes.deep_view()
            &&& t@.session_id == session_id@
            &&& t@.ttl_seconds == ttl_seconds as int
            &&& t@.issued_at + ttl_seconds == t@.expires_at
            &&& 0 <= t@.issued_at <= TIME_MAX
            &&& t@.nonce.len() == 36
        },
{
    let now = runtime::current_time();
    let nonce = runtime::fresh_id();
    Ok(
        CapabilityToken {
            nonce,
            scopes,
            ttl_seconds,
            session_id,
            expires_at: now + ttl_seconds,
            issued_at: now,
        },
    )
}

/// Validate a serialized token against the secret, judging expiry at the
/// given time.
#[verifier::loop_isolation(false)]
pub fn validate_token_at(token_string: &str, secret: &str, now: i64) -> (r: Result<
    CapabilityToken,
    CoreError,
>)
    ensures
        match r {
            Ok(t) => validate_spec(token_string@, secret@, now) == Ok::<TokenV, CoreError>(t@),
            Err(e) => validate_spec(token_string@, secret@, now) == Err::<TokenV, CoreError>(e),
        },
{
    let v = text::str_chars(token_string);
    let ghost t = token_string@;
    proof {
        assert(v@.subrange(0, v@.len() as int) =~= t);
    }
    let (nonce_chars, p1) = match text::take_field(&v, 0) {
        None => {
            return Err(CoreError::TokenInvalid);
        },
        Some(x) => x,
    };
    let (session_chars, p2) = match text::take_field(&v, p1) {
        None => {
            return Err(CoreError::TokenInvalid);
        },
        Some(x) => x,
    };
    let (issued_chars, p3) = match text::take_field(&v, p2) {
        None => {
            return Err(CoreError::TokenInvalid);
        },
        Some(x) => x,
    };
    proof {
        assert(issued_chars@.subrange(0, issued_chars@.len() as int) =~= issued_chars@);
    }
    let issued = match text::parse_dec_chars(&issued_chars, 0, issued_chars.len()) {
        None => {
            return Err(CoreError::TokenInvalid);
        },
        Some(x) => x,
    };
    if issued > i64::MAX as u64 {
        return Err(CoreError::TokenInvalid);
    }
    let (expires_chars, p4) = match text::take_field(&v, p3) {
        None => {
            return Err(CoreError::TokenInvalid);
        },
        Some(x) => x,
    };
    proof {
        assert(expires_chars@.subrange(0, expires_chars@.len() as int) =~= expires_chars@);
    }
    let expires = match text::parse_dec_chars(&expires_chars, 0, expires_chars.len()) {
        None => {
            return Err(CoreError::TokenInvalid);
        },
        Some(x) => x,
    };
    if expires > i64::MAX as u64 {
        return Err(CoreError::TokenInvalid);
    }
    let (count_chars, p5) = match text::take_field(&v, p4) {
        None => {
            return Err(CoreError::TokenInvalid);
        },
        Some(x) => x,
    };
    proof {
        assert(count_chars@.subrange(0, count_chars@.len() as int) =~= count_chars@);
    }
    let count = match text::parse_dec_chars(&count_chars, 0, count_chars.len()) {
        None => {
            return Err(CoreError::TokenInvalid);
        },
        Some(x) => x,
    };
    let ghost rest5 = v@.subrange(p5 as int, v@.len() as int);
    let mut scopes: Vec<String> = Vec::new();
    let mut pos = p5;
    let mut remaining = count;
    while remaining > 0
        invariant
            pos <= v@.len(),
            rest5 == v@.subrange(p5 as int, v@.len() as int),
            p5 <= v@.len(),
            parse_scopes_n(rest5, count as nat) == match parse_scopes_n(
                v@.subrange(pos as int, v@.len() as int),
                remaining as nat,
            ) {
                None => None::<(Seq<Seq<char>>, Seq<char>)>,
                Some(sr) => Some((scopes.deep_view() + sr.0, sr.1)),
            },
        decreases remaining,
    {
        let ghost cur = v@.subrange(pos as int, v@.len() as int);
        let (sc_chars, newpos) = match text::take_field(&v, pos) {
            None => {
                proof {
                    assert(parse_scopes_n(cur, remaining as nat) is None);
                }
                return Err(CoreError::TokenInvalid);
            },
            Some(x) => x,
        };
        let ghost old_dv = scopes.deep_view();
        let sc = text::chars_to_string(&sc_chars);
        scopes.push(sc);
        proof {
            let newcur = v@.subrange(newpos as int, v@.len() as int);
            assert(scopes.deep_view() =~= old_dv.push(sc_chars@));
            assert(parse_scopes_n(cur, remaining as nat) == (match parse_scopes_n(
                newcur,
                (remaining - 1) as nat,
            ) {
                None => None::<(Seq<Seq<char>>, Seq<char>)>,
                Some(sr) => Some((seq![sc_chars@] + sr.0, sr.1)),
            }));
            match parse_scopes_n(newcur, (remaining - 1) as nat) {
                None => {},
                Some(sr) => {
                    assert(old_dv + (seq![sc_chars@] + sr.0) =~= scopes.deep_view() + sr.0);
                },
            }
        }
        pos = newpos;
        remaining = remaining - 1;
    }
    proof {
        let cur = v@.subrange(pos as int, v@.len() as int);
        assert(parse_scopes_n(cur, 0) == Some((Seq::<Seq<char>>::empty(), cur)));
        assert(scopes.deep_view() + Seq::<Seq<char>>::empty() =~= scopes.deep_view());
    }
    let n = v.len();
    let payload_chars = text::subrange_chars(&v, 0, pos);
    let sig_chars = text::subrange_chars(&v, pos, n);
    let payload_s = text::chars_to_string(&payload_chars);
    let digest = runtime::sha256_pair(payload_s.as_str(), secret);
    let expected_sig = text::bytes_to_hex(&digest);
    proof {
        match parse_claims(t) {
            None => {
                assert(false);
            },
            Some(pr) => {
                assert(pr.1 == v@.subrange(pos as int, v@.len() as int));
                assert(t.subrange(0, t.len() - pr.1.len()) =~= v@.subrange(0, pos as int));
            },
        }
    }
    if !text::vec_eq_chars(&sig_chars, &expected_sig) {
        proof {
            match parse_claims(t) {
                None => {
                    assert(false);
                },
                Some(pr) => {
                    assert(pr.1 == v@.subrange(pos as int, v@.len() as int));
                    assert(t.subrange(0, t.len() - pr.1.len()) =~= v@.subrange(0, pos as int));
                    assert(pr.1 != hex_seq(
                        runtime::sha256_pair_digest(
                            t.subrange(0, t.len() - pr.1.len()),
                            secret@,
                        ),
                    ));
                },
            }
        }
        return Err(CoreError::TokenInvalid);
    }
    let expires_i = expires as i64;
    let issued_i = issued as i64;
    if expires_i < now {
        return Err(CoreError::TokenExpired);
    }
    let token = CapabilityToken {
        nonce: text::chars_to_string(&nonce_chars),
        scopes,
        ttl_seconds: expires_i - issued_i,
        session_id: text::chars_to_string(&session_chars),
        expires_at: expires_i,
        issued_at: issued_i,
    };
    Ok(token)
}

/// Validate a serialized token now, by the process clock.
pub fn validate_token(token_string: &str, secret: &str) -> (r: Result<CapabilityToken, CoreError>)
    ensures
        match r {
            Ok(t) => exists|now: i64|
                0 <= now <= TIME_MAX && validate_spec(token_string@, secret@, now) == Ok::<
                    TokenV,
                    CoreError,
                >(t@),
            Err(e) => exists|now: i64|
                0 <= now <= TIME_MAX && validate_spec(token_string@, secret@, now) == Err::<
                    TokenV,
                    CoreError,
                >(e),
        },
{
    let now = runtime::current_time();
    validate_token_at(token_string, secret, now)
}

/// A list of encoded scopes parses back to exactly those scopes.
proof fn lemma_scopes_roundtrip(ss: Seq<Seq<char>>, rest: Seq<char>)
    requires
        forall|k: int| 0 <= k < ss.len() ==> #[trigger] ss[k].len() <= u64::MAX,
    ensures
        parse_scopes_n(scopes_enc(ss) + rest, ss.len()) == Some((ss, rest)),
    decreases ss.len(),
{
    if ss.len() == 0 {
        assert(scopes_enc(ss) + rest =~= rest);
        assert(ss =~= Seq::<Seq<char>>::empty());
    } else {
        let head = ss[0];
        let tail = ss.drop_first();
        assert(scopes_enc(ss) + rest =~= field_enc(head) + (scopes_enc(tail) + rest));
        text::lemma_field_roundtrip(head, scopes_enc(tail) + rest);
        lemma_scopes_roundtrip(tail, rest);
        assert(seq![head] + tail =~= ss);
    }
}

/// Encoded claims parse back to exactly the claims, leaving the signature
/// part untouched.
proof fn lemma_claims_roundtrip(tv: TokenV, rest: Seq<char>)
    requires
        0 <= tv.issued_at <= i64::MAX,
        0 <= tv.expires_at <= i64::MAX,
        tv.ttl_seconds == tv.expires_at - tv.issued_at,
        tv.nonce.len() <= u64::MAX,
        tv.session_id.len() <= u64::MAX,
        tv.scopes.len() < u64::MAX,
        forall|k: int| 0 <= k < tv.scopes.len() ==> #[trigger] tv.scopes[k].len() <= u64::MAX,
    ensures
        parse_claims(
            claims_enc(tv.nonce, tv.session_id, tv.issued_at, tv.expires_at, tv.scopes) + rest,
        ) == Some((tv, rest)),
{
    let di = dec_seq(tv.issued_at as nat);
    let de = dec_seq(tv.expires_at as nat);
    let dc = dec_seq(tv.scopes.len());
    text::lemma_dec_seq_digits(tv.issued_at as nat);
    text::lemma_dec_seq_digits(tv.expires_at as nat);
    text::lemma_dec_seq_digits(tv.scopes.len());
    text::lemma_dec_roundtrip(tv.issued_at as nat);
    text::lemma_dec_roundtrip(tv.expires_at as nat);
    text::lemma_dec_roundtrip(tv.scopes.len());
    let t = claims_enc(tv.nonce, tv.session_id, tv.issued_at, tv.expires_at, tv.scopes) + rest;
    let r1 = field_enc(tv.session_id) + (field_enc(di) + (field_enc(de) + (field_enc(dc) + (
    scopes_enc(tv.scopes) + rest))));
    assert(t =~= field_enc(tv.nonce) + r1);
    text::lemma_field_roundtrip(tv.nonce, r1);
    let r2 = field_enc(di) + (field_enc(de) + (field_enc(dc) + (scopes_enc(tv.scopes) + rest)));
    assert(r1 =~= field_enc(tv.session_id) + r2);
    text::lemma_field_roundtrip(tv.session_id, r2);
    let r3 = field_enc(de) + (field_enc(dc) + (scopes_enc(tv.scopes) + rest));
    assert(r2 =~= field_enc(di) + r3);
    text::lemma_field_roundtrip(di, r3);
    let r4 = field_enc(dc) + (scopes_enc(tv.scopes) + rest);
    assert(r3 =~= field_enc(de) + r4);
    text::lemma_field_roundtrip(de, r4);
    let r5 = scopes_enc(tv.scopes) + rest;
    assert(r4 =~= field_enc(dc) + r5);
    text::lemma_field_roundtrip(dc, r5);
    lemma_scopes_roundtrip(tv.scopes, rest);
    assert(parse_dec(di) == Some(tv.issued_at as nat));
    assert(parse_dec(de) == Some(tv.expires_at as nat));
    assert(parse_dec(dc) == Some(tv.scopes.len()));
}

/// A minted token is valid the moment it is minted and stays valid while
/// `now` has not passed `expires_at`; strictly after `expires_at` it is
/// rejected as expired, although its signature is still the correct one.
pub proof fn lemma_token_lifetime(tv: TokenV, secret: Seq<char>, now: i64)
    requires
        0 <= tv.issued_at <= i64::MAX,
        0 <= tv.expires_at <= i64::MAX,
        tv.ttl_seconds == tv.expires_at - tv.issued_at,
        tv.nonce.len() <= u64::MAX,
        tv.session_id.len() <= u64::MAX,
        tv.scopes.len() < u64::MAX,
        forall|k: int| 0 <= k < tv.scopes.len() ==> #[trigger] tv.scopes[k].len() <= u64::MAX,
    ensures
        validate_spec(token_enc(tv, secret), secret, now) == if tv.expires_at < now as int {
            Err::<TokenV, CoreError>(CoreError::TokenExpired)
        } else {
            Ok::<TokenV, CoreError>(tv)
        },
{
    let p = claims_enc(tv.nonce, tv.session_id, tv.issued_at, tv.expires_at, tv.scopes);
    let sig = hex_seq(runtime::sha256_pair_digest(p, secret));
    let t = token_enc(tv, secret);
    assert(t =~= p + sig);
    lemma_claims_roundtrip(tv, sig);
    assert(parse_claims(t) == Some((tv, sig)));
    assert(t.subrange(0, t.len() - sig.len()) =~= p);
}

} // verus!
