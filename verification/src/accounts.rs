//! Accounts and multi-factor authentication.
//!
//! The rules that decide which MFA methods an account offers, how a TOTP
//! secret is set up and enabled, how an MFA response is checked, and how an
//! account moves through verification, password reset and deletion. Sending
//! email and publishing events are left to the caller; the account is
//! saved to the reference database where a step ends with a save.

use vstd::prelude::*;
use crate::errors::Error;
use crate::reference_db::{ReferenceDb, TableName, stored_in, unchanged_except};
use crate::subscriptions::find_string;
use crate::text::views;
use crate::timestamp::{Timestamp, MAX_MILLIS, MILLIS_PER_WEEK};

verus! {

/// Email verification status
pub enum EmailVerification {
    /// Account is verified
    Verified,
    /// Pending email verification
    Pending { token: String, expiry: Timestamp },
    /// Moving to a new email
    Moving { new_email: String, token: String, expiry: Timestamp },
}

/// Password reset information
pub struct PasswordReset {
    /// Token required to change password
    pub token: String,
    /// Time at which this token expires
    pub expiry: Timestamp,
}

/// Account deletion information
pub enum DeletionInfo {
    /// The user must confirm deletion by email
    WaitingForVerification { token: String, expiry: Timestamp },
    /// The account is scheduled for deletion
    Scheduled { after: Timestamp },
    /// This account was deleted
    Deleted,
}

/// Lockout information
pub struct Lockout {
    /// Attempt counter
    pub attempts: i32,
    /// Time at which this lockout expires
    pub expiry: Option<Timestamp>,
}

/// TOTP configuration of an account.
pub enum Totp {
    /// Disabled
    Disabled,
    /// Waiting for user activation
    Pending { secret: String },
    /// Required on account
    Enabled { secret: String },
}

/// MFA method
#[derive(Clone, Copy, PartialEq, Eq, Structural)]
pub enum MFAMethod {
    Password,
    Recovery,
    Totp,
}

/// MFA configuration
pub struct MultiFactorAuthentication {
    /// TOTP MFA token, enabled if present
    pub totp_token: Totp,
    /// Recovery codes
    pub recovery_codes: Vec<String>,
}

/// A response to an MFA challenge.
pub enum MFAResponse {
    Password { password: String },
    Recovery { recovery_code: String },
    Totp { totp_code: String },
}

/// The part of an MFA ticket that MFA checks read: the TOTP code that was
/// current when the ticket was made, if any.
pub struct MFATicket {
    pub last_totp_code: Option<String>,
}

/// Account model
pub struct Account {
    /// Unique Id
    pub id: String,
    /// User's email
    pub email: String,
    /// Normalised email
    pub email_normalised: String,
    /// Argon2 hashed password
    pub password: String,
    /// Whether the account is disabled
    pub disabled: bool,
    /// Email verification status
    pub verification: EmailVerification,
    /// Password reset information
    pub password_reset: Option<PasswordReset>,
    /// Account deletion information
    pub deletion: Option<DeletionInfo>,
    /// Account lockout
    pub lockout: Option<Lockout>,
    /// Multi-factor authentication information
    pub mfa: MultiFactorAuthentication,
}

// ---------------------------------------------------------------------
// Outside computations: base32, TOTP, argon2, random sources.

/// Whether every character of `s` is one that RFC 4648 base32 decoding
/// accepts: a letter of either case, a digit from 2 to 7, or `=`.
pub open spec fn valid_base32(s: Seq<char>) -> bool {
    forall|i: int|
        0 <= i < s.len() ==> {
            let c = #[trigger] s[i];
            ('A' <= c && c <= 'Z') || ('a' <= c && c <= 'z') || ('2' <= c && c <= '7') || c == '='
        }
}

/// The bytes that RFC 4648 base32 decoding yields for a text.
pub uninterp spec fn base32_decoded(s: Seq<char>) -> Seq<u8>;

/// The unpadded RFC 4648 base32 encoding of some bytes.
pub uninterp spec fn base32_encoded(data: Seq<u8>) -> Seq<char>;

/// The 6-digit SHA-1 TOTP code for a secret at a time, with a 30 s step.
pub uninterp spec fn totp_code_at(secret: Seq<u8>, seconds: u64) -> Seq<char>;

/// The outcome of checking a password against an encoded argon2 hash:
/// whether it matches, or nothing when the hash cannot be read.
pub uninterp spec fn argon2_matches(encoded: Seq<char>, password: Seq<char>) -> Option<bool>;

/// Decodes unpadded-or-padded RFC 4648 base32 (`base32::decode`).
///
/// States that decoding succeeds exactly on texts whose characters all lie
/// in the base32 alphabet (either case) or are `=` (the decoder maps every
/// other character to an error), and names the bytes it yields.
#[verifier::external_body]
fn base32_decode(s: &str) -> (r: Option<Vec<u8>>)
    ensures
        (r is Some) == valid_base32(s@),
        r matches Some(b) ==> b@ == base32_decoded(s@),
{
    base32::decode(base32::Alphabet::RFC4648 { padding: false }, s)
}

/// Encodes bytes as unpadded RFC 4648 base32 (`base32::encode`).
///
/// States that the text uses only the upper-case base32 alphabet, and that
/// decoding it gives the bytes back (the crate's own round-trip property).
#[verifier::external_body]
fn base32_encode(data: &[u8]) -> (r: String)
    ensures
        r@ == base32_encoded(data@),
        valid_base32(r@),
        base32_decoded(r@) == data@,
{
    base32::encode(base32::Alphabet::RFC4648 { padding: false }, data)
}

/// The TOTP code of a secret at a time (`totp_lite::totp_custom` with SHA-1,
/// a 30 s step and 6 digits). States that the code is 6 ASCII digits: the
/// code is the truncated value modulo one million, formatted zero-padded to
/// six places.
#[verifier::external_body]
fn totp_code(secret: &[u8], seconds: u64) -> (r: String)
    ensures
        r@ == totp_code_at(secret@, seconds),
        r@.len() == 6,
        forall|i: int| 0 <= i < r@.len() ==> '0' <= #[trigger] r@[i] && r@[i] <= '9',
{
    totp_lite::totp_custom::<totp_lite::Sha1>(totp_lite::DEFAULT_STEP, 6, secret, seconds)
}

/// Checks a password against an encoded argon2 hash
/// (`argon2::verify_encoded`); an unreadable hash gives nothing.
#[verifier::external_body]
fn argon2_verify(encoded: &str, password: &str) -> (r: Option<bool>)
    ensures
        r == argon2_matches(encoded@, password@),
{
    argon2::verify_encoded(encoded, password.as_bytes()).ok()
}

/// Ten random bytes (`rand::random`). Nothing is stated of their values.
#[verifier::external_body]
fn random_secret_bytes() -> (r: Vec<u8>)
    ensures
        r@.len() == 10,
{
    let secret: [u8; 10] = rand::random();
    secret.to_vec()
}

/// A random identifier of `size` characters drawn from `alphabet`
/// (`nanoid::format` with the default random source). The alphabet must be
/// non-empty, ASCII and at most 255 long, and the size positive: otherwise
/// the generator panics or never returns.
#[verifier::external_body]
fn nanoid_from(alphabet: &[char], size: usize) -> (r: String)
    requires
        0 < alphabet@.len() <= 255,
        size > 0,
        forall|i: int| 0 <= i < alphabet@.len() ==> (#[trigger] alphabet@[i] as u32) < 128,
    ensures
        r@.len() == size,
        forall|i: int| 0 <= i < r@.len() ==> alphabet@.contains(#[trigger] r@[i]),
{
    nanoid::format(nanoid::rngs::default, alphabet, size)
}

// ---------------------------------------------------------------------
// Specifications.

/// The alphabet of recovery codes: digits and lower-case letters without
/// `i`, `l`, `o` and `u`.
pub open spec fn recovery_alphabet_spec() -> Seq<char> {
    seq![
        '1', '2', '3', '4', '5', '6', '7', '8', '9', '0', 'a', 'b', 'c', 'd', 'e', 'f', 'g',
        'h', 'j', 'k', 'm', 'n', 'p', 'q', 'r', 's', 't', 'v', 'w', 'x', 'y', 'z',
    ]
}

/// A recovery code: five alphabet characters, `-`, five more.
pub open spec fn is_recovery_code(c: Seq<char>) -> bool {
    &&& c.len() == 11
    &&& c[5] == '-'
    &&& forall|i: int| 0 <= i < 11 && i != 5 ==> recovery_alphabet_spec().contains(#[trigger] c[i])
}

impl Totp {
    /// The secret of a pending or enabled TOTP configuration is valid base32.
    pub open spec fn secret_ok(&self) -> bool {
        match self {
            Totp::Disabled => true,
            Totp::Pending { secret } => valid_base32(secret@),
            Totp::Enabled { secret } => valid_base32(secret@),
        }
    }

    /// The code that this configuration expects at a time, if it has a secret.
    pub open spec fn code_at(&self, seconds: u64) -> Option<Seq<char>> {
        match self {
            Totp::Disabled => None,
            Totp::Pending { secret } => Some(totp_code_at(base32_decoded(secret@), seconds)),
            Totp::Enabled { secret } => Some(totp_code_at(base32_decoded(secret@), seconds)),
        }
    }
}

/// The MFA methods an account offers: TOTP (and recovery codes, while any
/// remain) once TOTP is enabled, the password otherwise.
pub open spec fn methods_spec(mfa: MultiFactorAuthentication) -> Seq<MFAMethod> {
    if mfa.totp_token is Enabled {
        if mfa.recovery_codes@.len() > 0 {
            seq![MFAMethod::Totp, MFAMethod::Recovery]
        } else {
            seq![MFAMethod::Totp]
        }
    } else {
        seq![MFAMethod::Password]
    }
}

/// What enabling TOTP with a response gives: the result and the new TOTP
/// configuration, when the current code at `seconds` is as given.
pub open spec fn enable_totp_outcome(totp: Totp, response: MFAResponse, seconds: u64) -> (Result<(), Error>, Totp) {
    match response {
        MFAResponse::Totp { totp_code } => match totp {
            Totp::Disabled => (Err(Error::OperationFailed), totp),
            Totp::Pending { secret } => if totp.code_at(seconds) == Some(totp_code@) {
                (Ok(()), Totp::Enabled { secret })
            } else {
                (Err(Error::InvalidToken), totp)
            },
            Totp::Enabled { secret } => if totp.code_at(seconds) == Some(totp_code@) {
                (Err(Error::OperationFailed), Totp::Disabled)
            } else {
                (Err(Error::InvalidToken), totp)
            },
        },
        _ => (Err(Error::InvalidToken), totp),
    }
}

/// The outcome of an MFA response against an account at a time: the result,
/// and the recovery codes afterwards (a used recovery code is spent: its
/// first occurrence is removed).
pub open spec fn mfa_outcome(
    acc: Account,
    response: MFAResponse,
    ticket_code: Option<Seq<char>>,
    seconds: u64,
    r: Result<(), Error>,
    codes_after: Seq<Seq<char>>,
) -> bool {
    let methods = methods_spec(acc.mfa);
    let codes = views(acc.mfa.recovery_codes@);
    match response {
        MFAResponse::Password { password } => {
            &&& codes_after == codes
            &&& r == if !methods.contains(MFAMethod::Password) {
                Err(Error::DisallowedMFAMethod)
            } else if argon2_matches(acc.password@, password@) == Some(true) {
                Ok(())
            } else {
                Err(Error::InvalidCredentials)
            }
        },
        MFAResponse::Totp { totp_code } => {
            &&& codes_after == codes
            &&& r == if !methods.contains(MFAMethod::Totp) {
                Err(Error::DisallowedMFAMethod)
            } else if ticket_code == Some(totp_code@) || acc.mfa.totp_token.code_at(seconds) == Some(totp_code@) {
                Ok(())
            } else {
                Err(Error::InvalidToken)
            }
        },
        MFAResponse::Recovery { recovery_code } => {
            if !methods.contains(MFAMethod::Recovery) {
                r == Err::<(), Error>(Error::DisallowedMFAMethod) && codes_after == codes
            } else if codes.contains(recovery_code@) {
                r == Ok::<(), Error>(()) && exists|i: int|
                    0 <= i < codes.len() && codes[i] == recovery_code@ && (forall|j: int| 0 <= j < i ==> codes[j] != recovery_code@)
                        && codes_after == codes.remove(i)
            } else {
                r == Err::<(), Error>(Error::InvalidToken) && codes_after == codes
            }
        },
    }
}

/// The TOTP code recorded on an MFA ticket, if any.
pub open spec fn ticket_code_view(ticket: Option<MFATicket>) -> Option<Seq<char>> {
    match ticket {
        Some(t) => match t.last_totp_code {
            Some(c) => Some(c@),
            None => None,
        },
        None => None,
    }
}

// ---------------------------------------------------------------------
// Outcomes that follow the outside computations.

/// The result of a password check from the argon2 verification outcome:
/// success only when the hash was readable and matched. An unreadable hash
/// counts as a wrong password, so that accounts cannot be enumerated.
pub fn password_check_outcome(verified: Option<bool>) -> (r: Result<(), Error>)
    ensures
        r == if verified == Some(true) { Ok::<(), Error>(()) } else { Err(Error::InvalidCredentials) },
{
    match verified {
        Some(true) => Ok(()),
        _ => Err(Error::InvalidCredentials),
    }
}

/// The result of a TOTP response: accepted when it equals the code recorded
/// on the MFA ticket or the currently expected code.
pub fn totp_check_outcome(given: &String, ticket_code: &Option<String>, expected: &String) -> (r: Result<(), Error>)
    ensures
        r == if (ticket_code matches Some(c) && c@ == given@) || expected@ == given@ {
            Ok::<(), Error>(())
        } else {
            Err(Error::InvalidToken)
        },
{
    if let Some(code) = ticket_code {
        if *code == *given {
            return Ok(());
        }
    }
    if *expected == *given {
        Ok(())
    } else {
        Err(Error::InvalidToken)
    }
}

/// The alphabet of recovery codes.
pub fn recovery_alphabet() -> (r: Vec<char>)
    ensures
        r@ == recovery_alphabet_spec(),
{
    let r = vec![
        '1', '2', '3', '4', '5', '6', '7', '8', '9', '0', 'a', 'b', 'c', 'd', 'e', 'f', 'g',
        'h', 'j', 'k', 'm', 'n', 'p', 'q', 'r', 's', 't', 'v', 'w', 'x', 'y', 'z',
    ];
    assert(r@ =~= recovery_alphabet_spec());
    r
}

impl Totp {
    /// Whether TOTP information is empty
    pub fn is_empty(&self) -> (r: bool)
        ensures
            r == (self is Disabled),
    {
        matches!(self, Totp::Disabled)
    }

    /// Whether TOTP is disabled
    pub fn is_disabled(&self) -> (r: bool)
        ensures
            r == !(self is Enabled),
    {
        !matches!(self, Totp::Enabled { .. })
    }

    /// The TOTP code for this configuration's secret at the given time;
    /// fails when TOTP is disabled.
    pub fn generate_code_at(&self, seconds: u64) -> (r: Result<String, Error>)
        requires
            self.secret_ok(),
        ensures
            match self.code_at(seconds) {
                Some(c) => r matches Ok(s) && s@ == c,
                None => r == Err::<String, Error>(Error::OperationFailed),
            },
    {
        match self {
            Totp::Disabled => Err(Error::OperationFailed),
            Totp::Pending { secret } => match base32_decode(secret.as_str()) {
                Some(bytes) => Ok(totp_code(bytes.as_slice(), seconds)),
                None => Err(Error::OperationFailed),
            },
            Totp::Enabled { secret } => match base32_decode(secret.as_str()) {
                Some(bytes) => Ok(totp_code(bytes.as_slice(), seconds)),
                None => Err(Error::OperationFailed),
            },
        }
    }

    /// Generate a TOTP code from secret, at the current time.
    pub fn generate_code(&self) -> (r: Result<String, Error>)
        requires
            self.secret_ok(),
        ensures
            self is Disabled ==> r == Err::<String, Error>(Error::OperationFailed),
            !(self is Disabled) ==> (r matches Ok(s) && exists|t: u64| self.code_at(t) == Some(s@)),
    {
        let seconds = crate::timestamp::unix_seconds_now();
        self.generate_code_at(seconds)
    }

    /// The TOTP code at a time, or `None` when the secret is not valid base32
    /// (in which case a code cannot be made).
    pub fn checked_generate_code_at(&self, seconds: u64) -> (r: Option<Result<String, Error>>)
        ensures
            r is None <==> !self.secret_ok(),
            r matches Some(x) ==> match self.code_at(seconds) {
                Some(c) => x matches Ok(s) && s@ == c,
                None => x == Err::<String, Error>(Error::OperationFailed),
            },
    {
        let ok = match self {
            Totp::Disabled => true,
            Totp::Pending { secret } => base32_decode(secret.as_str()).is_some(),
            Totp::Enabled { secret } => base32_decode(secret.as_str()).is_some(),
        };
        if ok {
            Some(self.generate_code_at(seconds))
        } else {
            None
        }
    }
}

impl MultiFactorAuthentication {
    /// Check whether MFA is in-use
    pub fn is_active(&self) -> (r: bool)
        ensures
            r == (self.totp_token is Enabled),
    {
        matches!(self.totp_token, Totp::Enabled { .. })
    }

    /// Check whether there are still usable recovery codes
    pub fn has_recovery(&self) -> (r: bool)
        ensures
            r == (self.recovery_codes@.len() > 0),
    {
        !self.recovery_codes.is_empty()
    }

    /// Get available MFA methods
    pub fn get_methods(&self) -> (r: Vec<MFAMethod>)
        ensures
            r@ == methods_spec(*self),
    {
        if let Totp::Enabled { .. } = self.totp_token {
            let mut methods = vec![MFAMethod::Totp];
            if self.has_recovery() {
                methods.push(MFAMethod::Recovery);
            }
            assert(methods@ =~= methods_spec(*self));
            methods
        } else {
            let methods = vec![MFAMethod::Password];
            assert(methods@ =~= methods_spec(*self));
            methods
        }
    }

    /// Generate new recovery codes: ten fresh random codes of the form
    /// `xxxxx-xxxxx`.
    pub fn generate_recovery_codes(&mut self)
        ensures
            final(self).totp_token == old(self).totp_token,
            final(self).recovery_codes@.len() == 10,
            forall|i: int| 0 <= i < 10 ==> is_recovery_code(#[trigger] final(self).recovery_codes@[i]@),
    {
        let alphabet = recovery_alphabet();
        proof {
            assert forall|i: int| 0 <= i < alphabet@.len() implies (#[trigger] alphabet@[i] as u32) < 128 by {
                assert(alphabet@ == recovery_alphabet_spec());
            }
        }
        let mut codes: Vec<String> = Vec::new();
        let mut n: usize = 0;
        while n < 10
            invariant
                n <= 10,
                alphabet@ == recovery_alphabet_spec(),
                forall|i: int| 0 <= i < alphabet@.len() ==> (#[trigger] alphabet@[i] as u32) < 128,
                codes@.len() == n,
                forall|i: int| 0 <= i < n ==> is_recovery_code(#[trigger] codes@[i]@),
            decreases 10 - n,
        {
            let a = nanoid_from(alphabet.as_slice(), 5);
            let b = nanoid_from(alphabet.as_slice(), 5);
            let code = a.concat("-").concat(b.as_str());
            proof {
                reveal_strlit("-");
                assert(code@ == a@ + seq!['-'] + b@);
                assert forall|i: int| 0 <= i < 11 && i != 5 implies recovery_alphabet_spec().contains(#[trigger] code@[i]) by {
                    if i < 5 {
                        assert(code@[i] == a@[i]);
                    } else {
                        assert(code@[i] == b@[i - 6]);
                    }
                }
            }
            codes.push(code);
            n = n + 1;
        }
        self.recovery_codes = codes;
    }

    /// Generate new TOTP secret: fails while TOTP is enabled; otherwise a
    /// fresh random secret is made pending and handed back.
    pub fn generate_new_totp_secret(&mut self) -> (r: Result<String, Error>)
        ensures
            old(self).totp_token is Enabled ==> r == Err::<String, Error>(Error::OperationFailed) && *final(self) == *old(self),
            !(old(self).totp_token is Enabled) ==> (r matches Ok(s) && final(self).totp_token == Totp::Pending { secret: s }
                && valid_base32(s@)
                && exists|b: Seq<u8>| b.len() == 10 && s@ == base32_encoded(b) && base32_decoded(s@) == b),
            final(self).recovery_codes == old(self).recovery_codes,
            old(self).totp_token.secret_ok() ==> final(self).totp_token.secret_ok(),
    {
        if let Totp::Enabled { .. } = self.totp_token {
            return Err(Error::OperationFailed);
        }
        let bytes = random_secret_bytes();
        let secret = base32_encode(bytes.as_slice());
        self.totp_token = Totp::Pending { secret: secret.clone() };
        Ok(secret)
    }

    /// Enable TOTP using a given MFA response, checked against the code at
    /// the given time.
    pub fn enable_totp_at(&mut self, response: MFAResponse, seconds: u64) -> (r: Result<(), Error>)
        requires
            response is Totp ==> old(self).totp_token.secret_ok(),
        ensures
            (r, final(self).totp_token) == enable_totp_outcome(old(self).totp_token, response, seconds),
            final(self).recovery_codes == old(self).recovery_codes,
            old(self).totp_token.secret_ok() ==> final(self).totp_token.secret_ok(),
    {
        if let MFAResponse::Totp { totp_code } = response {
            let code = match self.totp_token.generate_code_at(seconds) {
                Ok(c) => c,
                Err(e) => {
                    return Err(e);
                },
            };
            if code == totp_code {
                let mut totp = Totp::Disabled;
                std::mem::swap(&mut totp, &mut self.totp_token);
                if let Totp::Pending { secret } = totp {
                    self.totp_token = Totp::Enabled { secret };
                    Ok(())
                } else {
                    Err(Error::OperationFailed)
                }
            } else {
                Err(Error::InvalidToken)
            }
        } else {
            Err(Error::InvalidToken)
        }
    }

    /// Enable TOTP using a given MFA response, checked against the current
    /// code.
    pub fn enable_totp(&mut self, response: MFAResponse) -> (r: Result<(), Error>)
        requires
            response is Totp ==> old(self).totp_token.secret_ok(),
        ensures
            exists|t: u64| (r, final(self).totp_token) == #[trigger] enable_totp_outcome(old(self).totp_token, response, t),
            final(self).recovery_codes == old(self).recovery_codes,
            old(self).totp_token.secret_ok() ==> final(self).totp_token.secret_ok(),
    {
        let seconds = crate::timestamp::unix_seconds_now();
        self.enable_totp_at(response, seconds)
    }
}

impl Account {
    /// Verify a user's password is correct
    pub fn verify_password(&self, plaintext_password: &str) -> (r: Result<(), Error>)
        ensures
            r == if argon2_matches(self.password@, plaintext_password@) == Some(true) {
                Ok::<(), Error>(())
            } else {
                Err(Error::InvalidCredentials)
            },
    {
        password_check_outcome(argon2_verify(self.password.as_str(), plaintext_password))
    }

    /// Validate an MFA response at the given time. A recovery code that is
    /// accepted is spent, the account is saved to `db`, and the result is
    /// that of the save; otherwise `db` is left as it was.
    pub fn consume_mfa_response_at(
        &mut self,
        db: &mut ReferenceDb,
        response: MFAResponse,
        ticket: Option<MFATicket>,
        seconds: u64,
    ) -> (r: Result<(), Error>)
        requires
            old(db).wf(),
            response is Totp && old(self).mfa.totp_token is Enabled ==> old(self).mfa.totp_token.secret_ok(),
        ensures
            final(db).wf(),
            response is Recovery && r is Ok ==> stored_in(old(db).accounts, final(db).accounts, final(self).id@, *final(self))
                && unchanged_except(*old(db), *final(db), TableName::Accounts),
            !(response is Recovery && r is Ok) ==> *final(db) == *old(db),
            mfa_outcome(
                *old(self),
                response,
                ticket_code_view(ticket),
                seconds,
                r,
                views(final(self).mfa.recovery_codes@),
            ),
            final(self).id == old(self).id,
            final(self).email == old(self).email,
            final(self).email_normalised == old(self).email_normalised,
            final(self).password == old(self).password,
            final(self).disabled == old(self).disabled,
            final(self).mfa.totp_token == old(self).mfa.totp_token,
            final(self).verification == old(self).verification,
            final(self).password_reset == old(self).password_reset,
            final(self).deletion == old(self).deletion,
            final(self).lockout == old(self).lockout,
    {
        let allowed_methods = self.mfa.get_methods();
        let ticket_code: Option<String> = match ticket {
            Some(t) => t.last_totp_code,
            None => None,
        };
        match response {
            MFAResponse::Password { password } => {
                if contains_method(&allowed_methods, MFAMethod::Password) {
                    self.verify_password(password.as_str())
                } else {
                    Err(Error::DisallowedMFAMethod)
                }
            },
            MFAResponse::Totp { totp_code } => {
                if contains_method(&allowed_methods, MFAMethod::Totp) {
                    let expected = match self.mfa.totp_token.generate_code_at(seconds) {
                        Ok(c) => c,
                        Err(e) => {
                            return Err(e);
                        },
                    };
                    totp_check_outcome(&totp_code, &ticket_code, &expected)
                } else {
                    Err(Error::DisallowedMFAMethod)
                }
            },
            MFAResponse::Recovery { recovery_code } => {
                if contains_method(&allowed_methods, MFAMethod::Recovery) {
                    let ghost c0 = self.mfa.recovery_codes@;
                    match find_string(&self.mfa.recovery_codes, &recovery_code) {
                        Some(index) => {
                            self.mfa.recovery_codes.remove(index);
                            proof {
                                assert(views(c0)[index as int] == recovery_code@);
                                assert(views(c0.remove(index as int)) =~= views(c0).remove(index as int));
                            }
                            match db.save_account(self) {
                                Ok(_) => Ok(()),
                                Err(e) => Err(e),
                            }
                        },
                        None => {
                            proof {
                                if views(c0).contains(recovery_code@) {
                                    let k = choose|k: int| 0 <= k < views(c0).len() && views(c0)[k] == recovery_code@;
                                    assert(c0[k]@ == recovery_code@);
                                }
                            }
                            Err(Error::InvalidToken)
                        },
                    }
                } else {
                    Err(Error::DisallowedMFAMethod)
                }
            },
        }
    }

    /// Validate an MFA response against the current TOTP code; a spent
    /// recovery code is saved to `db` as `consume_mfa_response_at` says.
    pub fn consume_mfa_response(&mut self, db: &mut ReferenceDb, response: MFAResponse, ticket: Option<MFATicket>) -> (r: Result<(), Error>)
        requires
            old(db).wf(),
            response is Totp && old(self).mfa.totp_token is Enabled ==> old(self).mfa.totp_token.secret_ok(),
        ensures
            final(db).wf(),
            response is Recovery && r is Ok ==> stored_in(old(db).accounts, final(db).accounts, final(self).id@, *final(self))
                && unchanged_except(*old(db), *final(db), TableName::Accounts),
            !(response is Recovery && r is Ok) ==> *final(db) == *old(db),
            exists|t: u64| #[trigger] mfa_outcome(
                *old(self),
                response,
                ticket_code_view(ticket),
                t,
                r,
                views(final(self).mfa.recovery_codes@),
            ),
            final(self).id == old(self).id,
            final(self).password == old(self).password,
            final(self).mfa.totp_token == old(self).mfa.totp_token,
            final(self).email == old(self).email,
            final(self).email_normalised == old(self).email_normalised,
            final(self).disabled == old(self).disabled,
            final(self).verification == old(self).verification,
            final(self).password_reset == old(self).password_reset,
            final(self).deletion == old(self).deletion,
            final(self).lockout == old(self).lockout,
    {
        let seconds = crate::timestamp::unix_seconds_now();
        self.consume_mfa_response_at(db, response, ticket, seconds)
    }
}

/// An account's content, with its recovery codes as a sequence.
pub struct AccountRecord {
    pub id: String,
    pub email: String,
    pub email_normalised: String,
    pub password: String,
    pub disabled: bool,
    pub verification: EmailVerification,
    pub password_reset: Option<PasswordReset>,
    pub deletion: Option<DeletionInfo>,
    pub lockout: Option<Lockout>,
    pub totp_token: Totp,
    pub recovery_codes: Seq<String>,
}

impl EmailVerification {
    /// A copy.
    pub fn duplicate(&self) -> (r: EmailVerification)
        ensures
            r == *self,
    {
        match self {
            EmailVerification::Verified => EmailVerification::Verified,
            EmailVerification::Pending { token, expiry } => EmailVerification::Pending { token: token.clone(), expiry: *expiry },
            EmailVerification::Moving { new_email, token, expiry } => EmailVerification::Moving {
                new_email: new_email.clone(),
                token: token.clone(),
                expiry: *expiry,
            },
        }
    }
}

impl PasswordReset {
    /// A copy.
    pub fn duplicate(&self) -> (r: PasswordReset)
        ensures
            r == *self,
    {
        PasswordReset { token: self.token.clone(), expiry: self.expiry }
    }
}

impl DeletionInfo {
    /// A copy.
    pub fn duplicate(&self) -> (r: DeletionInfo)
        ensures
            r == *self,
    {
        match self {
            DeletionInfo::WaitingForVerification { token, expiry } => DeletionInfo::WaitingForVerification {
                token: token.clone(),
                expiry: *expiry,
            },
            DeletionInfo::Scheduled { after } => DeletionInfo::Scheduled { after: *after },
            DeletionInfo::Deleted => DeletionInfo::Deleted,
        }
    }
}

impl Lockout {
    /// A copy.
    pub fn duplicate(&self) -> (r: Lockout)
        ensures
            r == *self,
    {
        Lockout { attempts: self.attempts, expiry: self.expiry }
    }
}

impl Totp {
    /// A copy.
    pub fn duplicate(&self) -> (r: Totp)
        ensures
            r == *self,
    {
        match self {
            Totp::Disabled => Totp::Disabled,
            Totp::Pending { secret } => Totp::Pending { secret: secret.clone() },
            Totp::Enabled { secret } => Totp::Enabled { secret: secret.clone() },
        }
    }
}

impl Account {
    /// The account's content.
    pub open spec fn record(&self) -> AccountRecord {
        AccountRecord {
            id: self.id,
            email: self.email,
            email_normalised: self.email_normalised,
            password: self.password,
            disabled: self.disabled,
            verification: self.verification,
            password_reset: self.password_reset,
            deletion: self.deletion,
            lockout: self.lockout,
            totp_token: self.mfa.totp_token,
            recovery_codes: self.mfa.recovery_codes@,
        }
    }

    /// A copy.
    pub fn duplicate(&self) -> (r: Account)
        ensures
            r.record() == self.record(),
    {
        Account {
            id: self.id.clone(),
            email: self.email.clone(),
            email_normalised: self.email_normalised.clone(),
            password: self.password.clone(),
            disabled: self.disabled,
            verification: self.verification.duplicate(),
            password_reset: match &self.password_reset {
                Some(p) => Some(p.duplicate()),
                None => None,
            },
            deletion: match &self.deletion {
                Some(d) => Some(d.duplicate()),
                None => None,
            },
            lockout: match &self.lockout {
                Some(l) => Some(l.duplicate()),
                None => None,
            },
            mfa: MultiFactorAuthentication {
                totp_token: self.mfa.totp_token.duplicate(),
                recovery_codes: self.mfa.recovery_codes.clone(),
            },
        }
    }
}

/// What to do when an account with the same normalised email exists at
/// registration.
pub enum AccountFollowUp {
    /// The existing account is still unverified: send its verification again.
    ResendVerification,
    /// Otherwise: send the existing account a password reset.
    SendPasswordReset,
}

/// Whether an account is scheduled for deletion at or before `now`.
pub open spec fn due_for_deletion(acc: Account, now: Timestamp) -> bool {
    acc.deletion matches Some(DeletionInfo::Scheduled { after }) && after.millis <= now.millis
}

/// A fresh token for email links (`nanoid` with its URL-safe alphabet, 32
/// characters).
pub fn email_token() -> (r: String)
    ensures
        r@.len() == 32,
        forall|i: int| 0 <= i < 32 ==> is_url_safe(#[trigger] r@[i]),
{
    let alphabet = url_safe_alphabet();
    nanoid_from(alphabet.as_slice(), 32)
}

/// Whether `c` is in nanoid's URL-safe alphabet: an ASCII letter or digit,
/// `_` or `-`.
pub open spec fn is_url_safe(c: char) -> bool {
    ('a' <= c && c <= 'z') || ('A' <= c && c <= 'Z') || ('0' <= c && c <= '9') || c == '_' || c == '-'
}

/// nanoid's default URL-safe alphabet.
fn url_safe_alphabet() -> (r: Vec<char>)
    ensures
        0 < r@.len() <= 255,
        forall|i: int| 0 <= i < r@.len() ==> (#[trigger] r@[i] as u32) < 128,
        forall|c: char| r@.contains(c) ==> is_url_safe(c),
{
    let r = vec![
        '_', '-', '0', '1', '2', '3', '4', '5', '6', '7', '8', '9', 'a', 'b', 'c', 'd', 'e', 'f', 'g',
        'h', 'i', 'j', 'k', 'l', 'm', 'n', 'o', 'p', 'q', 'r', 's', 't', 'u', 'v', 'w', 'x', 'y', 'z',
        'A', 'B', 'C', 'D', 'E', 'F', 'G', 'H', 'I', 'J', 'K', 'L', 'M', 'N', 'O', 'P', 'Q', 'R', 'S',
        'T', 'U', 'V', 'W', 'X', 'Y', 'Z',
    ];
    proof {
        assert forall|c: char| r@.contains(c) implies is_url_safe(c) by {
            let k = choose|k: int| 0 <= k < r@.len() && r@[k] == c;
            assert(is_url_safe(r@[k]));
        }
    }
    r
}

impl Account {
    /// A new, verified account without MFA, reset, deletion or lockout.
    pub fn new_verified(id: String, email: String, email_normalised: String, password: String) -> (r: Account)
        ensures
            r.id == id,
            r.email == email,
            r.email_normalised == email_normalised,
            r.password == password,
            !r.disabled,
            r.verification is Verified,
            r.password_reset is None,
            r.deletion is None,
            r.lockout is None,
            r.mfa.totp_token is Disabled,
            r.mfa.recovery_codes@.len() == 0,
    {
        Account {
            id,
            email,
            email_normalised,
            password,
            disabled: false,
            verification: EmailVerification::Verified,
            password_reset: None,
            deletion: None,
            lockout: None,
            mfa: MultiFactorAuthentication { totp_token: Totp::Disabled, recovery_codes: Vec::new() },
        }
    }

    /// At registration with an email that an account already holds: resend
    /// the verification of an unverified account, otherwise send a password
    /// reset.
    pub fn existing_account_follow_up(&self) -> (r: AccountFollowUp)
        ensures
            (r is ResendVerification) == (self.verification is Pending),
    {
        if let EmailVerification::Pending { .. } = &self.verification {
            AccountFollowUp::ResendVerification
        } else {
            AccountFollowUp::SendPasswordReset
        }
    }

    /// Record the outcome of starting email verification: pending with the
    /// token and expiry when verification mail was sent, verified when mail
    /// is not configured; then save the account to `db`, with the save's
    /// result.
    pub fn set_email_verification(&mut self, db: &mut ReferenceDb, pending: Option<(String, Timestamp)>) -> (r: Result<(), Error>)
        requires
            old(db).wf(),
        ensures
            r is Ok,
            final(db).wf(),
            stored_in(old(db).accounts, final(db).accounts, final(self).id@, *final(self)),
            unchanged_except(*old(db), *final(db), TableName::Accounts),
            final(self).verification == match pending {
                Some((token, expiry)) => EmailVerification::Pending { token, expiry },
                None => EmailVerification::Verified,
            },
            final(self).id == old(self).id,
            final(self).email == old(self).email,
            final(self).email_normalised == old(self).email_normalised,
            final(self).password == old(self).password,
            final(self).disabled == old(self).disabled,
            final(self).password_reset == old(self).password_reset,
            final(self).deletion == old(self).deletion,
            final(self).lockout == old(self).lockout,
            final(self).mfa == old(self).mfa,
    {
        self.verification = match pending {
            Some((token, expiry)) => EmailVerification::Pending { token, expiry },
            None => EmailVerification::Verified,
        };
        db.save_account(self)
    }

    /// Start moving the account to a new email. Refused while the current
    /// email is unverified. With mail configured the move waits for
    /// verification of the new address; without, the email changes at once.
    /// Unless refused, the account is then saved to `db`, with the save's
    /// result.
    pub fn move_email(
        &mut self,
        db: &mut ReferenceDb,
        new_email: String,
        new_email_normalised: String,
        pending: Option<(String, Timestamp)>,
    ) -> (r: Result<(), Error>)
        requires
            old(db).wf(),
        ensures
            final(db).wf(),
            r is Ok ==> stored_in(old(db).accounts, final(db).accounts, final(self).id@, *final(self))
                && unchanged_except(*old(db), *final(db), TableName::Accounts),
            r is Err ==> *final(db) == *old(db),
            old(self).verification is Pending ==> r == Err::<(), Error>(Error::UnverifiedAccount) && final(self).email == old(self).email
                && final(self).email_normalised == old(self).email_normalised && final(self).verification == old(self).verification,
            !(old(self).verification is Pending) ==> r is Ok && match pending {
                Some((token, expiry)) => final(self).verification == (EmailVerification::Moving { new_email, token, expiry })
                    && final(self).email == old(self).email && final(self).email_normalised == old(self).email_normalised,
                None => final(self).email == new_email && final(self).email_normalised == new_email_normalised
                    && final(self).verification == old(self).verification,
            },
            final(self).id == old(self).id,
            final(self).password == old(self).password,
            final(self).disabled == old(self).disabled,
            final(self).deletion == old(self).deletion,
            final(self).password_reset == old(self).password_reset,
            final(self).lockout == old(self).lockout,
            final(self).mfa == old(self).mfa,
    {
        if let EmailVerification::Pending { .. } = &self.verification {
            return Err(Error::UnverifiedAccount);
        }
        match pending {
            Some((token, expiry)) => {
                self.verification = EmailVerification::Moving { new_email, token, expiry };
            },
            None => {
                self.email_normalised = new_email_normalised;
                self.email = new_email;
            },
        }
        db.save_account(self)
    }

    /// Record a password reset: refused when mail is not configured (no
    /// token), otherwise the token and expiry are kept and the account is
    /// saved to `db`, with the save's result.
    pub fn set_password_reset(&mut self, db: &mut ReferenceDb, pending: Option<(String, Timestamp)>) -> (r: Result<(), Error>)
        requires
            old(db).wf(),
        ensures
            final(db).wf(),
            r is Ok ==> stored_in(old(db).accounts, final(db).accounts, final(self).id@, *final(self))
                && unchanged_except(*old(db), *final(db), TableName::Accounts),
            r is Err ==> *final(db) == *old(db),
            pending is None ==> r == Err::<(), Error>(Error::OperationFailed) && final(self).password_reset == old(self).password_reset,
            pending matches Some((token, expiry)) ==> r is Ok && final(self).password_reset == Some(PasswordReset { token, expiry }),
            final(self).id == old(self).id,
            final(self).email == old(self).email,
            final(self).password == old(self).password,
            final(self).disabled == old(self).disabled,
            final(self).verification == old(self).verification,
            final(self).deletion == old(self).deletion,
            final(self).email_normalised == old(self).email_normalised,
            final(self).lockout == old(self).lockout,
            final(self).mfa == old(self).mfa,
    {
        match pending {
            Some((token, expiry)) => {
                self.password_reset = Some(PasswordReset { token, expiry });
                db.save_account(self)
            },
            None => Err(Error::OperationFailed),
        }
    }

    /// Disable an account and save it to `db`, with the save's result.
    /// Sessions are not held by this database; ending them is the caller's.
    pub fn disable(&mut self, db: &mut ReferenceDb) -> (r: Result<(), Error>)
        requires
            old(db).wf(),
        ensures
            r is Ok,
            final(db).wf(),
            stored_in(old(db).accounts, final(db).accounts, final(self).id@, *final(self)),
            unchanged_except(*old(db), *final(db), TableName::Accounts),
            final(self).disabled,
            final(self).id == old(self).id,
            final(self).email == old(self).email,
            final(self).email_normalised == old(self).email_normalised,
            final(self).password == old(self).password,
            final(self).verification == old(self).verification,
            final(self).password_reset == old(self).password_reset,
            final(self).deletion == old(self).deletion,
            final(self).lockout == old(self).lockout,
            final(self).mfa == old(self).mfa,
    {
        self.disabled = true;
        db.save_account(self)
    }

    /// Schedule an account for deletion one week after `now`, and disable it
    /// (which saves it to `db`, with the save's result).
    pub fn schedule_deletion(&mut self, db: &mut ReferenceDb, now: Timestamp) -> (r: Result<(), Error>)
        requires
            old(db).wf(),
            now.in_range(),
            now.millis + MILLIS_PER_WEEK <= MAX_MILLIS,
        ensures
            r is Ok,
            final(db).wf(),
            stored_in(old(db).accounts, final(db).accounts, final(self).id@, *final(self)),
            unchanged_except(*old(db), *final(db), TableName::Accounts),
            (final(self).deletion matches Some(DeletionInfo::Scheduled { after }) && after.millis == now.millis + MILLIS_PER_WEEK),
            final(self).disabled,
            final(self).id == old(self).id,
            final(self).email == old(self).email,
            final(self).email_normalised == old(self).email_normalised,
            final(self).password == old(self).password,
            final(self).verification == old(self).verification,
            final(self).password_reset == old(self).password_reset,
            final(self).lockout == old(self).lockout,
            final(self).mfa == old(self).mfa,
    {
        let after = Timestamp { millis: now.millis + MILLIS_PER_WEEK };
        self.deletion = Some(DeletionInfo::Scheduled { after });
        self.disable(db)
    }

    /// Begin account deletion: with mail configured, wait for the owner to
    /// confirm with the token; without, schedule the deletion at once. Either
    /// way the account is saved to `db`, with the save's result.
    pub fn begin_account_deletion(&mut self, db: &mut ReferenceDb, pending: Option<(String, Timestamp)>, now: Timestamp) -> (r: Result<(), Error>)
        requires
            old(db).wf(),
            now.in_range(),
            now.millis + MILLIS_PER_WEEK <= MAX_MILLIS,
        ensures
            r is Ok,
            final(db).wf(),
            stored_in(old(db).accounts, final(db).accounts, final(self).id@, *final(self)),
            unchanged_except(*old(db), *final(db), TableName::Accounts),
            pending matches Some((token, expiry)) ==> final(self).deletion == Some(DeletionInfo::WaitingForVerification { token, expiry })
                && final(self).disabled == old(self).disabled,
            pending is None ==> (final(self).deletion matches Some(DeletionInfo::Scheduled { after }) && after.millis == now.millis + MILLIS_PER_WEEK
                && final(self).disabled),
            final(self).id == old(self).id,
            final(self).email == old(self).email,
            final(self).password == old(self).password,
            final(self).verification == old(self).verification,
            final(self).email_normalised == old(self).email_normalised,
            final(self).password_reset == old(self).password_reset,
            final(self).lockout == old(self).lockout,
            final(self).mfa == old(self).mfa,
    {
        match pending {
            Some((token, expiry)) => {
                self.deletion = Some(DeletionInfo::WaitingForVerification { token, expiry });
                db.save_account(self)
            },
            None => self.schedule_deletion(db, now),
        }
    }

    /// Removes all information from the account and marks it as fully
    /// deleted, then saves it to `db`, with the save's result.
    pub fn mark_deleted(&mut self, db: &mut ReferenceDb) -> (r: Result<(), Error>)
        requires
            old(db).wf(),
        ensures
            r is Ok,
            final(db).wf(),
            stored_in(old(db).accounts, final(db).accounts, final(self).id@, *final(self)),
            unchanged_except(*old(db), *final(db), TableName::Accounts),
            final(self).email@ == "Deleted User "@ + old(self).id@,
            final(self).email_normalised@ == "Deleted User "@ + old(self).id@,
            final(self).deletion == Some(DeletionInfo::Deleted),
            final(self).id == old(self).id,
            final(self).password == old(self).password,
            final(self).disabled == old(self).disabled,
            final(self).verification == old(self).verification,
            final(self).password_reset == old(self).password_reset,
            final(self).lockout == old(self).lockout,
            final(self).mfa == old(self).mfa,
    {
        let label = String::from_str("Deleted User ").concat(self.id.as_str());
        self.email = label.clone();
        self.email_normalised = label;
        self.deletion = Some(DeletionInfo::Deleted);
        db.save_account(self)
    }
}

/// An account scheduled for deletion at `now` is not due before a week has
/// passed, and is due from then on.
pub proof fn lemma_scheduled_deletion_due_after_a_week(acc: Account, now: Timestamp, later: Timestamp)
    requires
        acc.deletion matches Some(DeletionInfo::Scheduled { after }) && after.millis == now.millis + MILLIS_PER_WEEK,
    ensures
        due_for_deletion(acc, later) <==> later.millis >= now.millis + MILLIS_PER_WEEK,
{
}

/// The methods an account offers never mix the password with TOTP: the
/// password is offered exactly when TOTP is not enabled, and recovery codes
/// only alongside TOTP.
pub proof fn lemma_methods_exclusive(mfa: MultiFactorAuthentication)
    ensures
        methods_spec(mfa).contains(MFAMethod::Password) <==> !(mfa.totp_token is Enabled),
        methods_spec(mfa).contains(MFAMethod::Totp) <==> mfa.totp_token is Enabled,
        methods_spec(mfa).contains(MFAMethod::Recovery) <==> (mfa.totp_token is Enabled && mfa.recovery_codes@.len() > 0),
{
    let m = methods_spec(mfa);
    if mfa.totp_token is Enabled {
        if mfa.recovery_codes@.len() > 0 {
            assert(m[0] == MFAMethod::Totp && m[1] == MFAMethod::Recovery);
        } else {
            assert(m[0] == MFAMethod::Totp);
        }
    } else {
        assert(m[0] == MFAMethod::Password);
    }
}

/// A secret made by `generate_new_totp_secret` can be enabled: with the code
/// current at any time the pending secret becomes enabled; and enabling
/// never touches the recovery codes.
pub proof fn lemma_enable_pending_with_current_code(secret: String, code: String, seconds: u64)
    requires
        code@ == totp_code_at(base32_decoded(secret@), seconds),
    ensures
        enable_totp_outcome(Totp::Pending { secret }, MFAResponse::Totp { totp_code: code }, seconds)
            == (Ok::<(), Error>(()), Totp::Enabled { secret }),
{
}

/// A spent recovery code cannot be used a second time when it was the only
/// copy: after an accepted recovery code the account no longer holds it.
pub proof fn lemma_recovery_code_spent(acc: Account, code: String, seconds: u64, codes_after: Seq<Seq<char>>)
    requires
        views(acc.mfa.recovery_codes@).no_duplicates(),
        mfa_outcome(acc, MFAResponse::Recovery { recovery_code: code }, None, seconds, Ok(()), codes_after),
    ensures
        !codes_after.contains(code@),
        codes_after.len() == acc.mfa.recovery_codes@.len() - 1,
{
    let codes = views(acc.mfa.recovery_codes@);
    let i = choose|i: int|
        0 <= i < codes.len() && codes[i] == code@ && (forall|j: int| 0 <= j < i ==> codes[j] != code@)
            && codes_after == codes.remove(i);
    if codes_after.contains(code@) {
        let k = choose|k: int| 0 <= k < codes_after.len() && codes_after[k] == code@;
        let ik = if k < i { k } else { k + 1 };
        assert(codes[ik] == code@);
    }
}

/// Whether `m` is among the methods.
fn contains_method(methods: &Vec<MFAMethod>, m: MFAMethod) -> (r: bool)
    ensures
        r == methods@.contains(m),
{
    let mut i: usize = 0;
    while i < methods.len()
        invariant
            i <= methods.len(),
            forall|j: int| 0 <= j < i ==> methods@[j] != m,
        decreases methods.len() - i,
    {
        if methods[i] == m {
            assert(methods@[i as int] == m);
            return true;
        }
        i = i + 1;
    }
    false
}


/// With TOTP enabled, a TOTP response is accepted exactly when it equals the
/// code recorded on the ticket or the code expected at the given time, so
/// the current code is accepted whatever the ticket recorded; anything else
/// is an invalid token. No recovery code is spent either way.
pub proof fn lemma_totp_response_accepted_iff_ticket_or_current(
    acc: Account,
    code: String,
    ticket: Option<MFATicket>,
    seconds: u64,
    r: Result<(), Error>,
    codes_after: Seq<Seq<char>>,
)
    requires
        acc.mfa.totp_token is Enabled,
        mfa_outcome(acc, MFAResponse::Totp { totp_code: code }, ticket_code_view(ticket), seconds, r, codes_after),
    ensures
        acc.mfa.totp_token.code_at(seconds) == Some(code@) ==> r == Ok::<(), Error>(()),
        ticket_code_view(ticket) == Some(code@) ==> r == Ok::<(), Error>(()),
        r is Ok <==> (ticket_code_view(ticket) == Some(code@) || acc.mfa.totp_token.code_at(seconds) == Some(code@)),
        r is Err ==> r == Err::<(), Error>(Error::InvalidToken),
        codes_after == views(acc.mfa.recovery_codes@),
{
    lemma_methods_exclusive(acc.mfa);
}


/// Without TOTP enabled a password response is accepted exactly when the
/// password matches the stored hash, and is otherwise refused as invalid
/// credentials; with TOTP enabled it is never accepted.
pub proof fn lemma_password_response(
    acc: Account,
    password: String,
    ticket: Option<Seq<char>>,
    seconds: u64,
    r: Result<(), Error>,
    codes_after: Seq<Seq<char>>,
)
    requires
        mfa_outcome(acc, MFAResponse::Password { password }, ticket, seconds, r, codes_after),
    ensures
        !(acc.mfa.totp_token is Enabled) ==> (r is Ok <==> argon2_matches(acc.password@, password@) == Some(true)),
        !(acc.mfa.totp_token is Enabled) && r is Err ==> r == Err::<(), Error>(Error::InvalidCredentials),
        acc.mfa.totp_token is Enabled ==> r == Err::<(), Error>(Error::DisallowedMFAMethod),
        codes_after == views(acc.mfa.recovery_codes@),
{
    lemma_methods_exclusive(acc.mfa);
}

/// With TOTP enabled and recovery codes left, a recovery response is
/// accepted exactly when the account holds the code, and then that code
/// (one copy of it) is spent and the others stay in order.
pub proof fn lemma_recovery_response(
    acc: Account,
    code: String,
    ticket: Option<Seq<char>>,
    seconds: u64,
    r: Result<(), Error>,
    codes_after: Seq<Seq<char>>,
)
    requires
        acc.mfa.totp_token is Enabled,
        acc.mfa.recovery_codes@.len() > 0,
        mfa_outcome(acc, MFAResponse::Recovery { recovery_code: code }, ticket, seconds, r, codes_after),
    ensures
        r is Ok <==> views(acc.mfa.recovery_codes@).contains(code@),
        r is Ok ==> codes_after.len() + 1 == acc.mfa.recovery_codes@.len() && codes_after.to_multiset().insert(code@)
            == views(acc.mfa.recovery_codes@).to_multiset(),
        r is Err ==> r == Err::<(), Error>(Error::InvalidToken) && codes_after == views(acc.mfa.recovery_codes@),
{
    lemma_methods_exclusive(acc.mfa);
    let codes = views(acc.mfa.recovery_codes@);
    if r is Ok {
        let i = choose|i: int|
            0 <= i < codes.len() && codes[i] == code@ && (forall|j: int| 0 <= j < i ==> codes[j] != code@)
                && codes_after == codes.remove(i);
        codes.to_multiset_ensures();
        assert(codes.remove(i).to_multiset() =~= codes.to_multiset().remove(codes[i]));
        assert(codes.contains(code@));
        assert(codes.to_multiset().count(code@) > 0);
        assert(codes.to_multiset().remove(code@).insert(code@) =~= codes.to_multiset());
    }
}

} // verus!
