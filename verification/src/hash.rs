//! The hash under which a pattern is stored: Argon2id with a random salt.

use vstd::prelude::*;
use argon2::password_hash::{PasswordHash, Salt, SaltString};
use argon2::{PasswordHasher, PasswordVerifier};
use rand_core::RngCore;
use crate::number;
use crate::text;

verus! {

/// The name of the hash function.
pub const ALGORITHM: &'static str = "argon2id";

/// The version of the hash function.
pub const VERSION: u32 = 0x13;

/// The memory that a hash takes, in KiB: modest, yet enough to protect a secret
/// with little entropy.
pub const MEMORY_KIB: u32 = 8192;

/// The number of passes over the memory.
pub const PASSES: u32 = 3;

/// The number of lanes.
pub const LANES: u32 = 1;

/// How every hash of a pattern begins: function, version and costs.
pub const HEADER: &'static str = "$argon2id$v=19$m=8192,t=3,p=1$";

/// The most memory, in KiB, that a hash may be asked to take.
pub const MEMORY_LIMIT_KIB: u32 = 0x10_0000;

/// The most lanes that Argon2 has.
pub const LANE_LIMIT: u32 = 0xff_ffff;

/// A length, in characters, up to which every text can be hashed: Argon2 takes
/// a password of up to `0xffff_ffff` bytes.
pub const PATTERN_LIMIT: usize = 0x3fff_ffff;

/// A character of the base-64 alphabet.
pub open spec fn is_base64(c: char) -> bool {
    'A' <= c <= 'Z' || 'a' <= c <= 'z' || '0' <= c <= '9' || c == '+' || c == '/'
}

/// A salt as it is generated: sixteen bytes in base 64 without padding. The last
/// character stands for two bits only.
pub open spec fn is_salt(s: Seq<char>) -> bool {
    &&& s.len() == 22
    &&& forall|i: int| 0 <= i < s.len() ==> is_base64(#[trigger] s[i])
    &&& s[21] == 'A' || s[21] == 'Q' || s[21] == 'g' || s[21] == 'w'
}

/// A text of visible ASCII characters, at least one.
pub open spec fn is_visible(s: Seq<char>) -> bool {
    s.len() > 0 && forall|i: int| 0 <= i < s.len() ==> '!' <= #[trigger] s[i] <= '~'
}

/// How a hash in PHC form begins: function, version and costs.
pub open spec fn phc_header(
    algorithm: Seq<char>,
    version: u32,
    memory_kib: u32,
    passes: u32,
    lanes: u32,
) -> Seq<char> {
    "$"@ + algorithm + "$v="@ + number::decimal(version as nat) + "$m="@ + number::decimal(
        memory_kib as nat,
    ) + ",t="@ + number::decimal(passes as nat) + ",p="@ + number::decimal(lanes as nat) + "$"@
}

/// Argon2 has this function in this version, and takes these costs.
pub open spec fn is_supported(
    algorithm: Seq<char>,
    version: u32,
    memory_kib: u32,
    passes: u32,
    lanes: u32,
) -> bool {
    &&& algorithm == "argon2d"@ || algorithm == "argon2i"@ || algorithm == "argon2id"@
    &&& version == 0x10 || version == 0x13
    &&& passes >= 1
    &&& lanes >= 1
    &&& memory_kib >= 8 * lanes
}

/// What `Argon2::hash_password` of the `argon2` crate gives for these
/// arguments, as text: the hash in PHC form, or the message of the error.
pub uninterp spec fn argon2_phc(
    algorithm: Seq<char>,
    version: u32,
    memory_kib: u32,
    passes: u32,
    lanes: u32,
    password: Seq<char>,
    salt: Seq<char>,
) -> Result<Seq<char>, Seq<char>>;

/// Whether `verify_password` of the `argon2` crate accepts a password for a hash
/// in PHC form. A text that is no such hash accepts none.
pub uninterp spec fn argon2_verifies(hash: Seq<char>, password: Seq<char>) -> bool;

/// Those passwords verify against a hash that have this hash under the same
/// function, version, costs and salt.
pub open spec fn verifies_by_hashing(
    hash: Seq<char>,
    algorithm: Seq<char>,
    version: u32,
    memory_kib: u32,
    passes: u32,
    lanes: u32,
    salt: Seq<char>,
) -> bool {
    forall|q: Seq<char>| #[trigger]
        argon2_verifies(hash, q) <==> argon2_phc(
            algorithm,
            version,
            memory_kib,
            passes,
            lanes,
            q,
            salt,
        ) == Ok::<Seq<char>, Seq<char>>(hash)
}

/// `Argon2::hash_password` of the `argon2` crate, on a context made from plain
/// values, with the hash or the error written out as text. Claimed is that
/// - the outcome depends on the arguments alone;
/// - it is a hash where function, version and costs are supported, the salt is
///   one as it is generated and the password is not too long;
/// - a hash in PHC form is made of visible ASCII characters, and begins with
///   function, version, costs and salt;
/// - a password verifies against it exactly where it has the same hash under the
///   same salt, for verifying is hashing again and comparing.
///
/// The bounds keep out what the crate cannot compute with: lanes beyond its
/// limit, and more memory than can be counted on.
#[verifier::external_body]
fn argon2_hash_password(
    algorithm: &str,
    version: u32,
    memory_kib: u32,
    passes: u32,
    lanes: u32,
    password: &str,
    salt: &str,
) -> (r: Result<String, String>)
    requires
        memory_kib <= MEMORY_LIMIT_KIB,
        lanes <= LANE_LIMIT,
    ensures
        text::outcome(r) == argon2_phc(
            algorithm@,
            version,
            memory_kib,
            passes,
            lanes,
            password@,
            salt@,
        ),
        is_supported(algorithm@, version, memory_kib, passes, lanes) && is_salt(salt@)
            && password@.len() <= PATTERN_LIMIT ==> r is Ok,
        r matches Ok(h) ==> is_visible(h@) && text::starts_with(
            h@,
            phc_header(algorithm@, version, memory_kib, passes, lanes) + salt@ + "$"@,
        ),
        r matches Ok(h) ==> verifies_by_hashing(
            h@,
            algorithm@,
            version,
            memory_kib,
            passes,
            lanes,
            salt@,
        ),
{
    let params =
        argon2::Params::new(memory_kib, passes, lanes, None).map_err(|e| e.to_string())?;
    let algorithm = argon2::Algorithm::new(algorithm).map_err(|e| e.to_string())?;
    let version = argon2::Version::try_from(version).map_err(|e| e.to_string())?;
    let salt = Salt::from_b64(salt).map_err(|e| e.to_string())?;
    argon2::Argon2::new(algorithm, version, params)
        .hash_password(password.as_bytes(), salt)
        .map(|h| h.to_string())
        .map_err(|e| e.to_string())
}

/// `verify_password` of the `argon2` crate, on a hash in PHC form that
/// `PasswordHash::new` reads. Claimed is that the answer depends on the hash and
/// the password alone. The header keeps out costs that the crate cannot compute
/// with.
#[verifier::external_body]
fn argon2_verify(hash: &str, password: &str) -> (r: bool)
    requires
        text::starts_with(hash@, HEADER@),
    ensures
        r == argon2_verifies(hash@, password@),
{
    match PasswordHash::new(hash) {
        Ok(h) => argon2::Argon2::default().verify_password(password.as_bytes(), &h).is_ok(),
        Err(_) => false,
    }
}

/// `SaltString::encode_b64` of the `password-hash` crate over bytes that
/// `OsRng::try_fill_bytes` of the `rand_core` crate fills, or the message of the
/// error where the system has no random bytes to give. The salt is random:
/// claimed is only its form.
#[verifier::external_body]
fn generate_salt() -> (r: Result<String, String>)
    ensures
        r matches Ok(s) ==> is_salt(s@),
{
    let mut bytes = [0u8; Salt::RECOMMENDED_LENGTH];
    rand_core::OsRng.try_fill_bytes(&mut bytes).map_err(|e| e.to_string())?;
    SaltString::encode_b64(&bytes)
        .map(|s| s.as_str().to_string())
        .map_err(|e| e.to_string())
}

/// The outcome of hashing a pattern under a salt.
pub open spec fn hashed(pattern: Seq<char>, salt: Seq<char>) -> Result<Seq<char>, Seq<char>> {
    argon2_phc(ALGORITHM@, VERSION, MEMORY_KIB, PASSES, LANES, pattern, salt)
}

/// A pattern verifies against a hash. Only hashes with the function, version and
/// costs that patterns are hashed with are tried.
pub open spec fn verifies(hash: Seq<char>, pattern: Seq<char>) -> bool {
    text::starts_with(hash, HEADER@) && argon2_verifies(hash, pattern)
}

/// A text is the hash of a pattern under a salt: it begins with the header and
/// the salt, all of it is visible, and those patterns verify against it that
/// have the same hash under the same salt.
pub open spec fn is_hash_of(hash: Seq<char>, pattern: Seq<char>, salt: Seq<char>) -> bool {
    &&& hashed(pattern, salt) == Ok::<Seq<char>, Seq<char>>(hash)
    &&& is_visible(hash)
    &&& text::starts_with(hash, HEADER@ + salt + "$"@)
    &&& forall|q: Seq<char>| #[trigger]
        verifies(hash, q) <==> hashed(q, salt) == Ok::<Seq<char>, Seq<char>>(hash)
}

/// The header is that of the costs that patterns are hashed with.
proof fn lemma_header()
    ensures
        phc_header(ALGORITHM@, VERSION, MEMORY_KIB, PASSES, LANES) == HEADER@,
        is_supported(ALGORITHM@, VERSION, MEMORY_KIB, PASSES, LANES),
{
    reveal_strlit("argon2id");
    reveal_strlit("$argon2id$v=19$m=8192,t=3,p=1$");
    reveal_strlit("$");
    reveal_strlit("$v=");
    reveal_strlit("$m=");
    reveal_strlit(",t=");
    reveal_strlit(",p=");
    reveal_with_fuel(number::decimal, 4);
    assert(number::decimal(19) =~= seq!['1', '9']);
    assert(number::decimal(8192) =~= seq!['8', '1', '9', '2']);
    assert(number::decimal(3) =~= seq!['3']);
    assert(number::decimal(1) =~= seq!['1']);
    assert(phc_header(ALGORITHM@, VERSION, MEMORY_KIB, PASSES, LANES) =~= HEADER@);
}

/// A text that begins with two texts begins with the first of them.
proof fn lemma_longer_head(s: Seq<char>, a: Seq<char>, b: Seq<char>)
    requires
        text::starts_with(s, a + b),
    ensures
        text::starts_with(s, a),
{
    assert(s.take(a.len() as int) =~= s.take((a + b).len() as int).take(a.len() as int));
    assert((a + b).take(a.len() as int) =~= a);
}

/// Hashes a pattern under a given salt.
pub fn hash_with_salt(pattern: &str, salt: &str) -> (r: Result<String, String>)
    ensures
        text::outcome(r) == hashed(pattern@, salt@),
        is_salt(salt@) && pattern@.len() <= PATTERN_LIMIT ==> r is Ok,
        r matches Ok(h) ==> is_hash_of(h@, pattern@, salt@),
{
    let r: Result<String, String> = argon2_hash_password(
        ALGORITHM,
        VERSION,
        MEMORY_KIB,
        PASSES,
        LANES,
        pattern,
        salt,
    );
    proof {
        lemma_header();
        match text::outcome(r) {
            Ok(h) => {
                let rest = salt@ + "$"@;
                assert(HEADER@ + salt@ + "$"@ =~= HEADER@ + rest);
                lemma_longer_head(h, HEADER@, rest);
                assert forall|q: Seq<char>| #[trigger]
                    verifies(h, q) <==> hashed(q, salt@) == Ok::<Seq<char>, Seq<char>>(h) by {
                    assert(argon2_verifies(h, q) <==> hashed(q, salt@) == Ok::<
                        Seq<char>,
                        Seq<char>,
                    >(h));
                }
            },
            Err(_) => {},
        }
    }
    r
}

/// The outcome of hashing a pattern under a salt that was drawn, or could not
/// be.
pub open spec fn hashed_under(
    pattern: Seq<char>,
    drawn: Result<Seq<char>, Seq<char>>,
) -> Result<Seq<char>, Seq<char>> {
    match drawn {
        Ok(salt) => hashed(pattern, salt),
        Err(e) => Err(e),
    }
}

/// What can be drawn: a salt, or an error.
pub open spec fn is_drawn(drawn: Result<Seq<char>, Seq<char>>) -> bool {
    drawn matches Ok(salt) ==> is_salt(salt)
}

/// What hashing a pattern under what was drawn comes to: a salt gives a hash,
/// unless the pattern is too long, and an error is handed on.
pub open spec fn is_outcome(
    r: Result<Seq<char>, Seq<char>>,
    pattern: Seq<char>,
    drawn: Result<Seq<char>, Seq<char>>,
) -> bool {
    &&& r == hashed_under(pattern, drawn)
    &&& drawn is Ok && pattern.len() <= PATTERN_LIMIT ==> r is Ok
    &&& r matches Ok(h) ==> drawn is Ok && is_hash_of(h, pattern, drawn->Ok_0)
}

/// Hashes a pattern under a salt that was drawn, or hands on the error where
/// none could be.
pub fn hash_under(pattern: &str, drawn: &Result<String, String>) -> (r: Result<String, String>)
    ensures
        text::outcome(r) == hashed_under(pattern@, text::outcome(*drawn)),
        is_drawn(text::outcome(*drawn)) ==> is_outcome(
            text::outcome(r),
            pattern@,
            text::outcome(*drawn),
        ),
{
    match drawn {
        Ok(salt) => hash_with_salt(pattern, salt.as_str()),
        Err(e) => Err(e.clone()),
    }
}

/// Hashes a pattern under a new random salt.
pub fn hash_pattern(pattern: &str) -> (r: Result<String, String>)
    ensures
        exists|drawn: Result<Seq<char>, Seq<char>>|
            is_drawn(drawn) && #[trigger] is_outcome(text::outcome(r), pattern@, drawn),
{
    let drawn: Result<String, String> = generate_salt();
    hash_under(pattern, &drawn)
}

/// Tells whether a pattern verifies against a hash.
pub fn verify_pattern(hash: &str, pattern: &str) -> (r: bool)
    ensures
        r == verifies(hash@, pattern@),
{
    text::has_prefix(hash, HEADER) && argon2_verify(hash, pattern)
}

/// A pattern verifies against its own hash, and another one exactly where it has
/// the same hash under the same salt.
pub proof fn law_a_hash_verifies_its_pattern(
    hash: Seq<char>,
    pattern: Seq<char>,
    salt: Seq<char>,
    other: Seq<char>,
)
    requires
        is_hash_of(hash, pattern, salt),
    ensures
        verifies(hash, pattern),
        verifies(hash, other) <==> hashed(other, salt) == hashed(pattern, salt),
{
    assert(verifies(hash, pattern) <==> hashed(pattern, salt) == Ok::<Seq<char>, Seq<char>>(hash));
}

/// Two hashes of a pattern under different salts differ, and the pattern verifies
/// against both.
pub proof fn law_another_salt_gives_another_hash(
    pattern: Seq<char>,
    a: Seq<char>,
    b: Seq<char>,
    salt_a: Seq<char>,
    salt_b: Seq<char>,
)
    requires
        is_salt(salt_a),
        is_salt(salt_b),
        salt_a != salt_b,
        is_hash_of(a, pattern, salt_a),
        is_hash_of(b, pattern, salt_b),
    ensures
        a != b,
        verifies(a, pattern),
        verifies(b, pattern),
{
    law_a_hash_verifies_its_pattern(a, pattern, salt_a, pattern);
    law_a_hash_verifies_its_pattern(b, pattern, salt_b, pattern);
    if a == b {
        let n = HEADER@.len() as int;
        let ha = HEADER@ + salt_a + "$"@;
        let hb = HEADER@ + salt_b + "$"@;
        assert(ha == hb);
        assert(ha.subrange(n, n + 22) =~= salt_a);
        assert(hb.subrange(n, n + 22) =~= salt_b);
    }
}

/// A hash fits on a line of the settings file: it starts with `$`, it has no line
/// feed, and no white space at its ends.
pub proof fn law_hashes_can_be_saved(h: Seq<char>, pattern: Seq<char>, salt: Seq<char>)
    requires
        is_hash_of(h, pattern, salt),
    ensures
        h.len() > 0,
        h[0] == '$',
        text::is_trimmed(h),
        text::one_line(h),
{
    reveal_strlit("$argon2id$v=19$m=8192,t=3,p=1$");
    let head = HEADER@ + salt + "$"@;
    assert(h.take(head.len() as int)[0] == head[0]);
    assert('!' <= h[0] <= '~');
    assert('!' <= h[h.len() - 1] <= '~');
    assert forall|i: int| 0 <= i < h.len() implies #[trigger] h[i] != '\n' by {}
}

/// What is hashed is the whole pattern, under the whole salt, with Argon2id in
/// version 19, 8192 KiB of memory, three passes and one lane.
pub proof fn law_what_is_hashed(
    pattern: Seq<char>,
    salt: Seq<char>,
    drawn: Result<Seq<char>, Seq<char>>,
)
    ensures
        hashed(pattern, salt) == argon2_phc("argon2id"@, 19, 8192, 3, 1, pattern, salt),
        drawn == Ok::<Seq<char>, Seq<char>>(salt) ==> hashed_under(pattern, drawn) == hashed(
            pattern,
            salt,
        ),
        drawn matches Err(e) ==> hashed_under(pattern, drawn) == Err::<Seq<char>, Seq<char>>(e),
{
}

/// What is verified is the whole pattern against the whole hash, and only hashes
/// of that function and with those costs are.
pub proof fn law_what_is_verified(hash: Seq<char>, pattern: Seq<char>)
    ensures
        verifies(hash, pattern) <==> text::starts_with(
            hash,
            "$argon2id$v=19$m=8192,t=3,p=1$"@,
        ) && argon2_verifies(hash, pattern),
{
}

/// Every hash of a pattern tells its function, its version, its costs and its
/// salt, and nothing of it is white space.
pub proof fn law_the_form_of_a_hash(
    hash: Seq<char>,
    pattern: Seq<char>,
    salt: Seq<char>,
    i: int,
)
    requires
        is_hash_of(hash, pattern, salt),
    ensures
        text::starts_with(hash, "$argon2id$v=19$m=8192,t=3,p=1$"@ + salt + "$"@),
        0 <= i < hash.len() ==> '!' <= hash[i] <= '~' && !text::white_space(hash[i]),
{
}

/// A salt is 22 characters of base 64.
pub proof fn law_the_form_of_a_salt(salt: Seq<char>, i: int)
    requires
        is_drawn(Ok(salt)),
    ensures
        salt.len() == 22,
        0 <= i < 22 ==> 'A' <= salt[i] <= 'Z' || 'a' <= salt[i] <= 'z' || '0' <= salt[i] <= '9'
            || salt[i] == '+' || salt[i] == '/',
{
    if 0 <= i < 22 {
        assert(is_base64(salt[i]));
    }
}

} // verus!
