//! The private trial device identity and the activation request.
//!
//! A trial is tied to an app-specific identifier derived from the machine's
//! identity; the raw machine identity never leaves the device.
use vstd::prelude::*;
use vstd::utf8::encode_utf8;

use hmac::{Hmac, Mac};
use sha2::Sha256;

use crate::text::{
    ascii_lowercase, chars_of, eq_ignore_ascii_case, eq_ignore_ascii_case_str, hex_lower,
    hex_string, is_ascii_digit, is_ascii_hexdigit, to_ascii_lowercase, trim, trimmed,
};

verus! {

broadcast use vstd::string::group_string_axioms;

/// The message the machine identity authenticates to derive the trial identity.
pub const TRIAL_DEVICE_MESSAGE: &'static str = "findout/trial/device/v1";

/// The bytes of `TRIAL_DEVICE_MESSAGE`.
pub open spec fn trial_device_message() -> Seq<u8> {
    encode_utf8(TRIAL_DEVICE_MESSAGE@)
}

/// HMAC-SHA-256 of `message` under `key`.
pub uninterp spec fn hmac_sha256(key: Seq<u8>, message: Seq<u8>) -> Seq<u8>;

/// Computes HMAC-SHA-256 with `hmac::Hmac<sha2::Sha256>`: `Mac::new_from_slice`,
/// `update`, `finalize`. Trusted: the tag is `hmac_sha256(key, message)` and is
/// 32 bytes long; `new_from_slice` of `Hmac` accepts keys of every length
/// (longer ones are hashed), so the result is always present.
#[verifier::external_body]
fn hmac_sha256_bytes(key: &[u8], message: &[u8]) -> (r: Option<Vec<u8>>)
    ensures
        r is Some,
        r matches Some(t) ==> t@ == hmac_sha256(key@, message@) && t@.len() == 32,
{
    match <Hmac<Sha256> as Mac>::new_from_slice(key) {
        Ok(mut mac) => {
            mac.update(message);
            Some(mac.finalize().into_bytes().to_vec())
        },
        Err(_) => None,
    }
}

/// The trial identity of a machine: 64 lower-case hex digits of
/// HMAC-SHA-256 over the bytes of `TRIAL_DEVICE_MESSAGE`, keyed by the machine identity.
pub open spec fn trial_identity_of(machine_identity: Seq<u8>) -> Seq<char> {
    hex_lower(hmac_sha256(machine_identity, trial_device_message()))
}

proof fn lemma_hex_lower_shape(bytes: Seq<u8>)
    ensures
        hex_lower(bytes).len() == 2 * bytes.len(),
        forall|i: int| 0 <= i < hex_lower(bytes).len() ==> lower_hex_char(#[trigger] hex_lower(bytes)[i]),
    decreases bytes.len(),
{
    if bytes.len() > 0 {
        lemma_hex_lower_shape(bytes.drop_last());
        let p = hex_lower(bytes.drop_last());
        let h = hex_lower(bytes);
        assert forall|i: int| 0 <= i < h.len() implies lower_hex_char(#[trigger] h[i]) by {
            if i < p.len() {
                assert(h[i] == p[i]);
            }
        }
    }
}

/// Derives the app-specific trial identity from a machine identity.
pub fn derive_trial_device_id(machine_identity: &[u8]) -> (r: Result<String, String>)
    ensures
        r matches Ok(id) && id@ == trial_identity_of(machine_identity@),
        stored_identity_ok(trial_identity_of(machine_identity@)),
{
    proof {
        lemma_hex_lower_shape(hmac_sha256(machine_identity@, trial_device_message()));
    }
    let ghost id = trial_identity_of(machine_identity@);
    let tag = hmac_sha256_bytes(machine_identity, TRIAL_DEVICE_MESSAGE.as_bytes());
    assert(stored_identity_ok(id)) by {
        assert forall|i: int| 0 <= i < id.len() implies (#[trigger] id[i] as u32) < 128 by {
            assert(lower_hex_char(id[i]));
        }
        lemma_ascii_encode_len(id);
    }
    match tag {
        Some(tag) => Ok(hex_string(tag.as_slice())),
        None => Err(String::from_str("Could not derive trial device identity")),
    }
}

/// A lower-case hexadecimal digit.
pub open spec fn lower_hex_char(c: char) -> bool {
    is_ascii_digit(c) || ('a' <= c && c <= 'f')
}

/// A stored trial identity is used only if it is 64 lower-case hex digits.
pub open spec fn stored_identity_ok(value: Seq<char>) -> bool {
    &&& (encode_utf8(value).len() as usize) == 64
    &&& forall|i: int| 0 <= i < value.len() ==> lower_hex_char(#[trigger] value[i])
}

proof fn lemma_ascii_encode_len(s: Seq<char>)
    requires
        forall|i: int| 0 <= i < s.len() ==> (#[trigger] s[i] as u32) < 128,
    ensures
        encode_utf8(s).len() == s.len(),
    decreases s.len(),
{
    broadcast use vstd::utf8::group_utf8_lib;

    if s.len() > 0 {
        lemma_ascii_encode_len(s.drop_first());
    }
}

/// Whether a trial identity read back from the keychain may be used.
pub fn stored_identity_valid(value: &str) -> (r: bool)
    ensures
        r == stored_identity_ok(value@),
{
    if value.len() != 64 {
        return false;
    }
    let cs = chars_of(value);
    let mut i: usize = 0;
    while i < cs.len()
        invariant
            cs@ == value@,
            i <= cs@.len(),
            forall|k: int| 0 <= k < i ==> lower_hex_char(#[trigger] value@[k]),
        decreases cs@.len() - i,
    {
        let c = cs[i];
        if !(('0' <= c && c <= '9') || ('a' <= c && c <= 'f')) {
            assert(!lower_hex_char(value@[i as int]));
            return false;
        }
        i = i + 1;
    }
    true
}

/// The trial identity of a machine without a stable identity: 32 random
/// bytes as 64 lower-case hex digits.
pub fn random_trial_identity(bytes: &[u8]) -> (r: String)
    ensures
        r@ == hex_lower(bytes@),
        bytes@.len() == 32 ==> stored_identity_ok(r@),
{
    proof {
        lemma_hex_lower_shape(bytes@);
        let id = hex_lower(bytes@);
        if bytes@.len() == 32 {
            assert forall|i: int| 0 <= i < id.len() implies (#[trigger] id[i] as u32) < 128 by {
                assert(lower_hex_char(id[i]));
            }
            lemma_ascii_encode_len(id);
        }
    }
    hex_string(bytes)
}

/// The machine identity from `/etc/machine-id`, if it is one: trimmed, lower
/// case, 32 hex digits.
pub open spec fn linux_machine_identity(content: Seq<char>) -> Option<Seq<u8>> {
    let t = ascii_lowercase(trimmed(content));
    if (encode_utf8(t).len() as usize) == 32 && (forall|i: int|
        0 <= i < t.len() ==> is_ascii_hexdigit(#[trigger] t[i])) {
        Some(encode_utf8(t))
    } else {
        None
    }
}

/// Reads the machine identity from the contents of `/etc/machine-id`.
pub fn normalize_linux_machine_id(content: &str) -> (r: Option<Vec<u8>>)
    ensures
        match r {
            Some(b) => linux_machine_identity(content@) == Some(b@),
            None => linux_machine_identity(content@) is None,
        },
{
    let value = to_ascii_lowercase(trim(content));
    if value.as_str().len() != 32 {
        return None;
    }
    let cs = chars_of(value.as_str());
    let mut i: usize = 0;
    while i < cs.len()
        invariant
            cs@ == value@,
            value@ == ascii_lowercase(trimmed(content@)),
            (encode_utf8(value@).len() as usize) == 32,
            i <= cs@.len(),
            forall|k: int| 0 <= k < i ==> is_ascii_hexdigit(#[trigger] value@[k]),
        decreases cs@.len() - i,
    {
        let c = cs[i];
        if !(('0' <= c && c <= '9') || ('a' <= c && c <= 'f') || ('A' <= c && c <= 'F')) {
            assert(!is_ascii_hexdigit(value@[i as int]));
            return None;
        }
        i = i + 1;
    }
    Some(vstd::slice::slice_to_vec(value.as_str().as_bytes()))
}

/// The machine identity from the Windows `MachineGuid` value, if it is one:
/// trimmed, lower case, not empty.
pub open spec fn windows_machine_identity(value: Seq<char>) -> Option<Seq<u8>> {
    let t = ascii_lowercase(trimmed(value));
    if t.len() > 0 {
        Some(encode_utf8(t))
    } else {
        None
    }
}

/// Reads the machine identity from the decoded `MachineGuid` registry value.
pub fn normalize_machine_guid(value: &str) -> (r: Option<Vec<u8>>)
    ensures
        match r {
            Some(b) => windows_machine_identity(value@) == Some(b@),
            None => windows_machine_identity(value@) is None,
        },
{
    let v = to_ascii_lowercase(trim(value));
    if v.as_str().unicode_len() == 0 {
        return None;
    }
    Some(vstd::slice::slice_to_vec(v.as_str().as_bytes()))
}

/// What reading the stored trial identity from the keychain gave.
pub enum KeychainRead {
    /// The keychain entry could not be opened.
    Unavailable,
    /// The entry holds this value.
    Stored(String),
    /// The entry holds nothing.
    Missing,
    /// The keychain refused the read.
    Failed,
}

/// What to do to obtain the trial identity.
pub enum TrialIdentityPlan {
    /// Send this identity.
    Use(String),
    /// Send this identity and try to store it; a failure to store is ignored.
    UseAndStore(String),
    /// Create a random identity, store it, and send it only once it is stored.
    GenerateAndStore,
    /// Activation cannot go on; show this message.
    Fail(String),
}

/// The identity derived from the machine, or the message shown without one.
pub open spec fn from_machine(machine_identity: Option<Seq<u8>>) -> Result<Seq<char>, Seq<char>> {
    match machine_identity {
        Some(m) => Ok(trial_identity_of(m)),
        None => Err("Stable trial device identity is unavailable"@),
    }
}

fn identity_from_machine(machine_identity: Option<&[u8]>) -> (r: TrialIdentityPlan)
    ensures
        match machine_identity {
            Some(m) => r matches TrialIdentityPlan::Use(id) && id@ == trial_identity_of(m@),
            None => r matches TrialIdentityPlan::Fail(e) && e@
                == "Stable trial device identity is unavailable"@,
        },
{
    match machine_identity {
        Some(m) => match derive_trial_device_id(m) {
            Ok(id) => TrialIdentityPlan::Use(id),
            Err(e) => TrialIdentityPlan::Fail(e),
        },
        None => TrialIdentityPlan::Fail(
            String::from_str("Stable trial device identity is unavailable"),
        ),
    }
}

/// Decides where the trial identity comes from: a valid stored one first;
/// with nothing stored, the machine-derived one (stored for next time) or a
/// new random one; when the keychain cannot be used, the machine-derived one.
pub fn plan_trial_identity(machine_identity: Option<&[u8]>, read: KeychainRead) -> (r:
    TrialIdentityPlan)
    ensures
        match read {
            KeychainRead::Stored(v) => if stored_identity_ok(v@) {
                r matches TrialIdentityPlan::Use(id) && id@ == v@
            } else {
                r matches TrialIdentityPlan::Fail(e) && e@ == "Stored trial device identity is invalid"@
            },
            KeychainRead::Missing => match machine_identity {
                Some(m) => r matches TrialIdentityPlan::UseAndStore(id) && id@ == trial_identity_of(
                    m@,
                ),
                None => r is GenerateAndStore,
            },
            _ => match machine_identity {
                Some(m) => r matches TrialIdentityPlan::Use(id) && id@ == trial_identity_of(m@),
                None => r matches TrialIdentityPlan::Fail(e) && e@
                    == "Stable trial device identity is unavailable"@,
            },
        },
{
    match read {
        KeychainRead::Stored(v) => {
            if stored_identity_valid(v.as_str()) {
                TrialIdentityPlan::Use(v)
            } else {
                TrialIdentityPlan::Fail(String::from_str("Stored trial device identity is invalid"))
            }
        },
        KeychainRead::Missing => match machine_identity {
            Some(m) => match derive_trial_device_id(m) {
                Ok(id) => TrialIdentityPlan::UseAndStore(id),
                Err(e) => TrialIdentityPlan::Fail(e),
            },
            None => TrialIdentityPlan::GenerateAndStore,
        },
        KeychainRead::Unavailable => identity_from_machine(machine_identity),
        KeychainRead::Failed => identity_from_machine(machine_identity),
    }
}

/// Whether an activation key asks for the free trial.
pub fn is_trial_key(key: &str) -> (r: bool)
    ensures
        r == eq_ignore_ascii_case(key@, "trial"@),
{
    eq_ignore_ascii_case_str(key, "trial")
}

/// The body of an activation request.
pub struct ActivationRequest {
    pub activation_key: String,
    /// Sent only for the trial.
    pub device_id: Option<String>,
}

/// The activation request for a checked key: a trial sends `trial` and the
/// device identity, any other key is sent as it is, without one.
pub fn activation_request(key: &str, trial_device: Option<String>) -> (r: ActivationRequest)
    ensures
        match trial_device {
            Some(d) => r.activation_key@ == "trial"@ && (r.device_id matches Some(x) && x@ == d@),
            None => r.activation_key@ == key@ && r.device_id is None,
        },
{
    match trial_device {
        Some(d) => ActivationRequest {
            activation_key: String::from_str("trial"),
            device_id: Some(d),
        },
        None => ActivationRequest { activation_key: key.to_owned(), device_id: None },
    }
}

} // verus!
