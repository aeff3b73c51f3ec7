use agent_dao::Contract;
use agent_dao::Error;

fn fresh() -> Contract {
    Contract::init("owner".to_string())
}

fn measurement() -> String {
    "b".repeat(96)
}

fn api_image() -> String {
    "3".repeat(64)
}

fn app_image() -> String {
    "4".repeat(64)
}

fn manifest() -> String {
    format!("{}{}{}", measurement(), api_image(), app_image())
}

#[test]
fn invalid_quote_hex_never_registers() {
    let mut c = fresh();
    let r = c.register_agent(
        &"agent.near".to_string(),
        &"zz".to_string(),
        &"{}".to_string(),
        "checksum-1".to_string(),
        &manifest(),
        1700000000,
    );
    assert_eq!(r, Err(Error::AttestationInvalid));
    assert!(matches!(
        c.get_agent(&"agent.near".to_string()),
        Err(Error::WorkerNotFound)
    ));
}

#[test]
fn garbage_quote_fails_attestation() {
    let mut c = fresh();
    // Valid hex, but nothing a verifier would accept; and the collateral is
    // an empty JSON object, which does not even parse into collateral.
    let r = c.register_agent(
        &"agent.near".to_string(),
        &"00ff00ff".to_string(),
        &"{}".to_string(),
        "checksum-1".to_string(),
        &manifest(),
        1700000000,
    );
    assert_eq!(r, Err(Error::AttestationInvalid));
    assert!(matches!(
        c.get_agent(&"agent.near".to_string()),
        Err(Error::WorkerNotFound)
    ));
}

#[test]
fn identity_mismatch_is_rejected() {
    let mut c = fresh();
    let owner = "owner".to_string();
    c.approve_codehash(&owner, api_image()).unwrap();
    c.approve_codehash(&owner, app_image()).unwrap();
    let rd: Vec<u8> = b"someone-else".to_vec();
    let r = c.register_with_report(
        &"agent.near".to_string(),
        "checksum-1".to_string(),
        &manifest(),
        &rd,
        &measurement(),
    );
    assert_eq!(r, Err(Error::IdentityMismatch));
    assert!(matches!(
        c.get_agent(&"agent.near".to_string()),
        Err(Error::WorkerNotFound)
    ));
}

#[test]
fn unresolvable_measurement_is_rejected() {
    let mut c = fresh();
    let rd: Vec<u8> = b"agent.near".to_vec();
    // A manifest whose only record names a different measurement.
    let r = c.register_with_report(
        &"agent.near".to_string(),
        "checksum-1".to_string(),
        &manifest(),
        &rd,
        &"c".repeat(96),
    );
    assert_eq!(r, Err(Error::CodehashResolutionFailed));
    // A manifest that is not a whole number of records resolves nothing.
    let r2 = c.register_with_report(
        &"agent.near".to_string(),
        "checksum-1".to_string(),
        &"b".repeat(100),
        &rd,
        &measurement(),
    );
    assert_eq!(r2, Err(Error::CodehashResolutionFailed));
}

#[test]
fn unapproved_codehash_is_rejected() {
    let mut c = fresh();
    let rd: Vec<u8> = b"agent.near".to_vec();
    // approve_codehash was never called for these identities.
    let r = c.register_with_report(
        &"agent.near".to_string(),
        "checksum-1".to_string(),
        &manifest(),
        &rd,
        &measurement(),
    );
    assert_eq!(r, Err(Error::CodehashNotApproved));
    assert!(matches!(
        c.get_agent(&"agent.near".to_string()),
        Err(Error::WorkerNotFound)
    ));
}

#[test]
fn half_approved_codehash_is_rejected() {
    let mut c = fresh();
    let owner = "owner".to_string();
    c.approve_codehash(&owner, api_image()).unwrap();
    let rd: Vec<u8> = b"agent.near".to_vec();
    let r = c.register_with_report(
        &"agent.near".to_string(),
        "checksum-1".to_string(),
        &manifest(),
        &rd,
        &measurement(),
    );
    assert_eq!(r, Err(Error::CodehashNotApproved));
}

#[test]
fn approve_codehash_is_owner_only_and_idempotent() {
    let mut c = fresh();
    let intruder = "intruder".to_string();
    assert_eq!(
        c.approve_codehash(&intruder, api_image()),
        Err(Error::Unauthorized)
    );
    let owner = "owner".to_string();
    assert_eq!(c.approve_codehash(&owner, api_image()), Ok(()));
    assert_eq!(c.approve_codehash(&owner, api_image()), Ok(()));
    assert_eq!(c.approved_codehashes.len(), 1);
}

#[test]
fn registration_records_the_app_image() {
    let mut c = fresh();
    let owner = "owner".to_string();
    c.approve_codehash(&owner, api_image()).unwrap();
    c.approve_codehash(&owner, app_image()).unwrap();
    let rd: Vec<u8> = b"agent.near".to_vec();
    let r = c.register_with_report(
        &"agent.near".to_string(),
        "checksum-1".to_string(),
        &manifest(),
        &rd,
        &measurement(),
    );
    assert_eq!(r, Ok(true));
    let w = c.get_agent(&"agent.near".to_string()).unwrap();
    assert_eq!(w.checksum, "checksum-1");
    assert_eq!(w.codehash, app_image());
    // Re-registration overwrites the record.
    let r2 = c.register_with_report(
        &"agent.near".to_string(),
        "checksum-2".to_string(),
        &manifest(),
        &rd,
        &measurement(),
    );
    assert_eq!(r2, Ok(true));
    let w2 = c.get_agent(&"agent.near".to_string()).unwrap();
    assert_eq!(w2.checksum, "checksum-2");
}

#[test]
fn manifest_with_several_records_resolves_the_matching_one() {
    let mut c = fresh();
    let owner = "owner".to_string();
    let other_record = format!("{}{}{}", "e".repeat(96), "5".repeat(64), "6".repeat(64));
    let tcb = format!("{}{}", other_record, manifest());
    c.approve_codehash(&owner, api_image()).unwrap();
    c.approve_codehash(&owner, app_image()).unwrap();
    let rd: Vec<u8> = b"agent.near".to_vec();
    let r = c.register_with_report(
        &"agent.near".to_string(),
        "checksum-1".to_string(),
        &tcb,
        &rd,
        &measurement(),
    );
    assert_eq!(r, Ok(true));
    let w = c.get_agent(&"agent.near".to_string()).unwrap();
    assert_eq!(w.codehash, app_image());
}
