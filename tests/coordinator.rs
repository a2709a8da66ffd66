use bitz_fleet::claim::{
    ClaimSession, NextKey,
    account_setup, batch_outcomes, claim_amount, claim_compute_units, claim_route, needs_claim, plan_claim,
    settle, AccountSetup, ClaimAttempt, ClaimOutcome, ClaimRoute, ClaimStatus, IdentityRun,
    CLAIM_TIMEOUT_SECS,
};
use bitz_fleet::credentials::{decode_batch, decode_identity, load_credentials, CredentialError};
use bitz_fleet::display::{account_row, activity_text, amount_text, short_address};
use solana_sdk::signature::Keypair;
use solana_sdk::signer::Signer;

const ADDRESS: &str = "9xQeWvG816bUx9EPjHmaT23yvVM2ZWbrrpZb9PusVFin";

fn run(fetched: Result<u64, String>, attempt: ClaimAttempt) -> IdentityRun {
    IdentityRun { address: ADDRESS.to_string(), fetched, attempt }
}

fn is_failed_with(o: &ClaimOutcome, text: &str) -> bool {
    matches!(&o.status, ClaimStatus::Failed { reason } if reason == text)
}

#[test]
fn credential_file_parsing() {
    assert_eq!(load_credentials(r#"["a","b"]"#).unwrap(), vec!["a", "b"]);
    assert!(load_credentials("[]").unwrap().is_empty());
    assert_eq!(load_credentials("not json").unwrap_err(), CredentialError::Malformed);
    assert_eq!(load_credentials("[1, 2]").unwrap_err(), CredentialError::Malformed);
}

#[test]
fn identity_decoding() {
    let kp = Keypair::new();
    let key = kp.to_base58_string();
    let id = decode_identity(&key).expect("valid key");
    assert_eq!(id.address, kp.pubkey().to_string());
    assert_eq!(id.private_key, key);
    assert!(decode_identity("key2").is_none());
    assert!(decode_identity("0OIl").is_none());
}

#[test]
fn one_valid_one_invalid_key_gives_one_outcome() {
    let valid = Keypair::new();
    let keys = vec![valid.to_base58_string(), "key2".to_string()];
    let batch = decode_batch(&keys);
    assert_eq!(batch.identities.len(), 1);
    assert_eq!(batch.rejected, vec!["key2"]);
    let mut runs: Vec<Option<IdentityRun>> = Vec::new();
    for key in &keys {
        runs.push(decode_identity(key).map(|id| IdentityRun {
            address: id.address,
            fetched: Ok(0),
            attempt: ClaimAttempt::NotRun,
        }));
    }
    let outcomes = batch_outcomes(&runs);
    assert_eq!(outcomes.len(), 1);
    assert_eq!(outcomes[0].address, short_address(&valid.pubkey().to_string()));
}

#[test]
fn batch_keeps_input_order() {
    let runs = vec![
        Some(IdentityRun { address: "AAAA1111".to_string(), fetched: Ok(5), attempt: ClaimAttempt::Confirmed }),
        None,
        Some(IdentityRun { address: "BBBB2222".to_string(), fetched: Err("down".to_string()), attempt: ClaimAttempt::NotRun }),
        Some(IdentityRun { address: "CCCC3333".to_string(), fetched: Ok(9), attempt: ClaimAttempt::TimedOut }),
    ];
    let outcomes = batch_outcomes(&runs);
    assert_eq!(outcomes.len(), 3);
    assert_eq!(outcomes[0].address, "AAAA...1111");
    assert!(matches!(outcomes[0].status, ClaimStatus::Success));
    assert_eq!(outcomes[1].address, "BBBB...2222");
    assert!(is_failed_with(&outcomes[1], "down"));
    assert_eq!(outcomes[1].amount, None);
    assert!(matches!(outcomes[2].status, ClaimStatus::TimedOut));
    assert!(batch_outcomes(&vec![None, None]).is_empty());
}

#[test]
fn zero_balance_is_nothing_to_claim() {
    assert!(!needs_claim(&Ok(0)));
    let o = settle(&run(Ok(0), ClaimAttempt::Confirmed));
    assert!(matches!(o.status, ClaimStatus::NothingToClaim));
    assert_eq!(o.amount, Some(0));
}

#[test]
fn claim_submitted_only_for_positive_balance() {
    assert!(needs_claim(&Ok(1)));
    assert!(!needs_claim(&Err("timeout".to_string())));
}

#[test]
fn timeout_is_reported() {
    let o = settle(&run(Ok(250), ClaimAttempt::TimedOut));
    assert!(matches!(o.status, ClaimStatus::TimedOut));
    assert_eq!(o.amount, Some(250));
    assert_eq!(CLAIM_TIMEOUT_SECS, 30);
}

#[test]
fn claim_results() {
    let ok = settle(&run(Ok(250), ClaimAttempt::Confirmed));
    assert!(matches!(ok.status, ClaimStatus::Success));
    assert_eq!(ok.address, "9xQe...VFin");
    let rejected = settle(&run(Ok(250), ClaimAttempt::Rejected { reason: "insufficient funds".to_string() }));
    assert!(is_failed_with(&rejected, "insufficient funds"));
    let fetch_failed = settle(&run(Err("account not found".to_string()), ClaimAttempt::NotRun));
    assert!(is_failed_with(&fetch_failed, "account not found"));
    assert_eq!(fetch_failed.amount, None);
    let not_run = settle(&run(Ok(3), ClaimAttempt::NotRun));
    assert!(is_failed_with(&not_run, "claim was not attempted"));
}

#[test]
fn single_claim_decisions() {
    assert_eq!(claim_amount(Some(10), 99), 10);
    assert_eq!(claim_amount(None, 99), 99);
    assert_eq!(claim_route(true), ClaimRoute::Pool);
    assert_eq!(claim_route(false), ClaimRoute::Solo);
    assert_eq!(claim_compute_units(ClaimRoute::Solo), 32_000);
    assert_eq!(claim_compute_units(ClaimRoute::Pool), 50_000);
    assert_eq!(account_setup(false, true), AccountSetup::Exists);
    assert_eq!(account_setup(true, true), AccountSetup::Exists);
    assert_eq!(account_setup(false, false), AccountSetup::CreateOwnFirst);
    assert_eq!(account_setup(true, false), AccountSetup::CreateWithClaim);
}

#[test]
fn address_shortening() {
    assert_eq!(short_address(ADDRESS), "9xQe...VFin");
    assert_eq!(short_address("abcd"), "abcd...abcd");
    assert_eq!(short_address("abc"), "abc");
}

#[test]
fn amounts() {
    assert_eq!(amount_text(0), "0.0000000000 BITZ");
    assert_eq!(amount_text(150_000_000_000), "1.5000000000 BITZ");
    assert_eq!(amount_text(123_456_789_012_345), "1234.5678901235 BITZ");
    assert_eq!(amount_text(123_456_789_012_344), "1234.5678901234 BITZ");
    assert_eq!(amount_text(19), "0.0000000002 BITZ");
    assert_eq!(amount_text(14), "0.0000000001 BITZ");
    assert_eq!(amount_text(99_999_999_995), "1.0000000000 BITZ");
    assert_eq!(amount_text(u64::MAX), "184467440.7370955162 BITZ");
}

#[test]
fn never_mined_account() {
    assert_eq!(activity_text(0), "never mined");
    assert_eq!(activity_text(-5), "never mined");
    assert_eq!(activity_text(1_700_000_000), "2023-11-14 22:13:20");
    let row = account_row(ADDRESS, &Ok((0, 0)));
    assert_eq!(row.last_activity, "never mined");
    assert_eq!(row.balance, "0.0000000000 BITZ");
    assert_eq!(row.address, "9xQe...VFin");
}

#[test]
fn unreachable_account_row() {
    let row = account_row(ADDRESS, &Err("rpc down".to_string()));
    assert_eq!(row.balance, "unavailable");
    assert_eq!(row.last_activity, "unavailable");
}

#[test]
fn claim_plans() {
    let solo = plan_claim(false, None, 700, false, false);
    assert_eq!(solo.route, ClaimRoute::Solo);
    assert_eq!(solo.amount, 700);
    assert_eq!(solo.setup, AccountSetup::CreateOwnFirst);
    assert_eq!(solo.compute_units, 32_000);
    let pool = plan_claim(true, Some(5), 700, true, false);
    assert_eq!(pool.route, ClaimRoute::Pool);
    assert_eq!(pool.amount, 5);
    assert_eq!(pool.setup, AccountSetup::CreateWithClaim);
    assert_eq!(pool.compute_units, 50_000);
    assert_eq!(plan_claim(true, None, 1, true, true).setup, AccountSetup::Exists);
}

#[test]
fn claim_session_pairs_outcomes_with_keys() {
    let a = Keypair::new();
    let b = Keypair::new();
    let keys = vec![a.to_base58_string(), "key2".to_string(), b.to_base58_string()];
    let mut session = ClaimSession::new(keys);
    let mut warned = Vec::new();
    let mut printed = 0;
    loop {
        let (next, step) = session.next_key();
        session = next;
        match step {
            NextKey::Finished => break,
            NextKey::Awaiting => panic!("nothing is awaiting"),
            NextKey::Undecodable { key } => warned.push(key),
            NextKey::Ready { identity } => {
                let fetched = if identity.address == a.pubkey().to_string() { Ok(0) } else { Ok(40) };
                let attempt = if needs_claim(&fetched) { ClaimAttempt::TimedOut } else { ClaimAttempt::NotRun };
                let (next, outcome) = session.record(fetched, attempt);
                session = next;
                assert!(outcome.is_some());
                printed += 1;
            }
        }
    }
    assert!(session.is_finished());
    assert_eq!(warned, vec!["key2"]);
    assert_eq!(printed, 2);
    let report = session.report();
    assert_eq!(report.len(), 2);
    assert_eq!(report[0].address, short_address(&a.pubkey().to_string()));
    assert!(matches!(report[0].status, ClaimStatus::NothingToClaim));
    assert_eq!(report[1].address, short_address(&b.pubkey().to_string()));
    assert!(matches!(report[1].status, ClaimStatus::TimedOut));
}

#[test]
fn claim_session_edges() {
    let (s, step) = ClaimSession::new(Vec::new()).next_key();
    assert!(matches!(step, NextKey::Finished));
    assert!(s.is_finished());
    assert!(s.report().is_empty());
    let key = Keypair::new().to_base58_string();
    let (s, step) = ClaimSession::new(vec![key]).next_key();
    assert!(matches!(step, NextKey::Ready { .. }));
    let (s, step) = s.next_key();
    assert!(matches!(step, NextKey::Awaiting));
    assert!(!s.is_finished());
    let (s, outcome) = s.record(Err("down".to_string()), ClaimAttempt::NotRun);
    assert!(outcome.is_some());
    let (s, outcome) = s.record(Ok(1), ClaimAttempt::Confirmed);
    assert!(outcome.is_none());
    assert_eq!(s.report().len(), 1);
}
