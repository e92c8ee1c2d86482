use findout::identity::{
    activation_request, derive_trial_device_id, is_trial_key, normalize_linux_machine_id,
    normalize_machine_guid, plan_trial_identity, random_trial_identity, stored_identity_valid,
    KeychainRead, TrialIdentityPlan,
};
use findout::validate::{
    valid_device_token, validate_activation_key, validate_image_dimensions, validate_query,
    MAX_QUERY_CHARS,
};

#[test]
fn validates_contract_limits() {
    assert_eq!(validate_activation_key("trial").unwrap(), "trial");
    assert_eq!(validate_activation_key(" Trial ").unwrap(), "Trial");
    assert_eq!(validate_activation_key("TRIAL").unwrap(), "TRIAL");
    assert!(validate_activation_key("short").is_err());
    assert!(validate_activation_key(" activation-key ").is_ok());
    assert!(validate_query("  ").is_err());
    assert!(validate_query(&"a".repeat(MAX_QUERY_CHARS)).is_ok());
    assert!(validate_query(&"a".repeat(MAX_QUERY_CHARS + 1)).is_err());
    assert!(validate_image_dimensions(16_385, 1).is_err());
    assert!(validate_image_dimensions(10_000, 10_000).is_err());
}

#[test]
fn validation_messages_and_edges() {
    assert_eq!(validate_query(" \t ").err().unwrap(), "Enter a question");
    assert_eq!(
        validate_query(&"é".repeat(MAX_QUERY_CHARS + 1)).err().unwrap(),
        "Question must be at most 4000 characters"
    );
    assert_eq!(validate_query("  why?\n").unwrap(), "why?");
    assert_eq!(
        validate_activation_key("1234567").err().unwrap(),
        "Enter trial or an 8–256 character activation key"
    );
    assert!(validate_activation_key("12345678").is_ok());
    assert!(validate_activation_key(&"k".repeat(256)).is_ok());
    assert!(validate_activation_key(&"k".repeat(257)).is_err());
    // Four two-byte characters are eight bytes.
    assert!(validate_activation_key("éééé").is_ok());
    assert!(validate_image_dimensions(16_384, 1).is_ok());
    assert!(validate_image_dimensions(8_000, 8_000).is_ok());
    assert!(validate_image_dimensions(8_000, 8_001).is_err());
    assert_eq!(
        validate_image_dimensions(0, 5).err().unwrap(),
        "Image dimensions are out of range"
    );
    assert!(validate_image_dimensions(5, 0).is_err());
}

#[test]
fn device_tokens_are_printable_ascii_of_bounded_length() {
    assert!(valid_device_token(&"t".repeat(32)));
    assert!(valid_device_token(&"t".repeat(4096)));
    assert!(!valid_device_token(&"t".repeat(31)));
    assert!(!valid_device_token(&"t".repeat(4097)));
    assert!(!valid_device_token(&format!("{} ", "t".repeat(32))));
    assert!(!valid_device_token(&"é".repeat(32)));
}

#[test]
fn derives_stable_private_trial_device_ids() {
    let first = derive_trial_device_id(b"raw-machine-identity").unwrap();
    let second = derive_trial_device_id(b"raw-machine-identity").unwrap();
    assert_eq!(first, second);
    assert_eq!(first.len(), 64);
    assert!(first
        .bytes()
        .all(|byte| byte.is_ascii_digit() || (b'a'..=b'f').contains(&byte)));
    assert_ne!(first, derive_trial_device_id(b"another-machine").unwrap());
}

#[test]
fn trial_identity_is_hmac_sha256_of_the_message() {
    assert_eq!(
        derive_trial_device_id(b"raw-machine-identity").unwrap(),
        "bbbf3ba5f79c3ce097be304e2c4391e8bdd9ed9969b59481c282946d474a0c1d"
    );
    assert_eq!(derive_trial_device_id(b"").unwrap().len(), 64);
}

#[test]
fn stored_identities_must_be_lower_hex() {
    let id = "0123456789abcdef".repeat(4);
    assert!(stored_identity_valid(&id));
    assert!(!stored_identity_valid(&id.to_uppercase()));
    assert!(!stored_identity_valid(&id[1..]));
    assert!(!stored_identity_valid(&format!("{id}0")));
    assert_eq!(random_trial_identity(&[0, 255, 16]), "00ff10");
    let random = random_trial_identity(&[0xa7; 32]);
    assert_eq!(random, "a7".repeat(32));
    assert!(stored_identity_valid(&random));
}

#[test]
fn machine_identities_are_normalised() {
    assert_eq!(
        normalize_linux_machine_id("  0123456789ABCDEF0123456789abcdef\n"),
        Some(b"0123456789abcdef0123456789abcdef".to_vec())
    );
    assert_eq!(normalize_linux_machine_id("0123456789abcdef"), None);
    assert_eq!(
        normalize_linux_machine_id("0123456789abcdef0123456789abcdeg"),
        None
    );
    assert_eq!(normalize_machine_guid("  ABC-d \n"), Some(b"abc-d".to_vec()));
    assert_eq!(normalize_machine_guid("   "), None);
}

fn plan_of(plan: TrialIdentityPlan) -> (&'static str, String) {
    match plan {
        TrialIdentityPlan::Use(id) => ("use", id),
        TrialIdentityPlan::UseAndStore(id) => ("store", id),
        TrialIdentityPlan::GenerateAndStore => ("generate", String::new()),
        TrialIdentityPlan::Fail(e) => ("fail", e),
    }
}

#[test]
fn trial_identity_prefers_the_stored_one() {
    let machine: &[u8] = b"raw-machine-identity";
    let derived = derive_trial_device_id(machine).unwrap();
    let stored = "ab".repeat(32);
    assert_eq!(
        plan_of(plan_trial_identity(Some(machine), KeychainRead::Stored(stored.clone()))),
        ("use", stored)
    );
    assert_eq!(
        plan_of(plan_trial_identity(Some(machine), KeychainRead::Stored("bad".into()))),
        ("fail", "Stored trial device identity is invalid".to_owned())
    );
    assert_eq!(
        plan_of(plan_trial_identity(Some(machine), KeychainRead::Missing)),
        ("store", derived.clone())
    );
    assert_eq!(
        plan_of(plan_trial_identity(None, KeychainRead::Missing)),
        ("generate", String::new())
    );
    assert_eq!(
        plan_of(plan_trial_identity(Some(machine), KeychainRead::Failed)),
        ("use", derived.clone())
    );
    assert_eq!(
        plan_of(plan_trial_identity(Some(machine), KeychainRead::Unavailable)),
        ("use", derived)
    );
    assert_eq!(
        plan_of(plan_trial_identity(None, KeychainRead::Unavailable)),
        (
            "fail",
            "Stable trial device identity is unavailable".to_owned()
        )
    );
}

#[test]
fn only_trial_activation_carries_a_device_id() {
    assert!(is_trial_key("TriAL"));
    assert!(!is_trial_key("trial-key"));
    let ordinary = activation_request("fo_issued-key", None);
    assert_eq!(ordinary.activation_key, "fo_issued-key");
    assert!(ordinary.device_id.is_none());
    let trial = activation_request("Trial", Some("a".to_owned()));
    assert_eq!(trial.activation_key, "trial");
    assert_eq!(trial.device_id.as_deref(), Some("a"));
}
