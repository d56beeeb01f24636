use asgard::provision::runlog::RunLogStore;
use asgard::provision::seal::{from_hex, is_sound, open, random_secret, read_utf8, seal, to_hex, Sealed};
use asgard::provision::secrets::{parts_of, BuiltinSecretStore, SecretRef, UnconfiguredStore};
use asgard::provision::tfstate::TfStateStore;
use asgard::provision::ProvisionError;

const NOW: &str = "2026-06-03T00:00:00.000Z";

fn at(path: &str) -> SecretRef {
    SecretRef { store: "builtin".to_string(), path: path.to_string(), version: 0 }
}

fn store() -> BuiltinSecretStore {
    BuiltinSecretStore::new([0x09; 32])
}

#[test]
fn put_get_roundtrip_and_versioning() {
    let mut s = store();
    let r = s.put("p", "db-pass", "s3cr3t", None, NOW).unwrap();
    assert_eq!(r.version, 1);
    assert_eq!(s.get(&r).unwrap(), "s3cr3t");
    let r2 = s.put("p", "db-pass", "rotated", None, NOW).unwrap();
    assert_eq!(r2.version, 2);
    assert_eq!(r2.path, r.path);
    assert_eq!(s.get(&r).unwrap(), "rotated");
    assert_eq!(s.name(), "builtin");
}

#[test]
fn rotate_bumps_version_with_fresh_value() {
    let mut s = store();
    let r = s.put("p", "k", "v1", None, NOW).unwrap();
    let before = s.get(&r).unwrap();
    let r2 = s.rotate(&r, NOW).unwrap();
    assert!(r2.version > r.version);
    assert_ne!(s.get(&r2).unwrap(), before);
    assert_eq!(s.rotate(&at("p/new"), NOW).unwrap().version, 1);
}

#[test]
fn list_and_delete() {
    let mut s = store();
    s.put("p", "b", "2", None, NOW).unwrap();
    s.put("p", "a", "1", None, NOW).unwrap();
    s.put("q", "c", "3", None, NOW).unwrap();
    assert_eq!(s.list("p").len(), 2);
    s.delete(&at("p/a"));
    let names: Vec<String> = s.list("p").into_iter().map(|i| i.name).collect();
    assert_eq!(names, vec!["b".to_string()]);
    assert!(matches!(s.get(&at("p/a")), Err(ProvisionError::RefNotFound(_))));
    assert_eq!(s.get(&at("q/c")).unwrap(), "3");
}

#[test]
fn due_for_rotation_respects_interval() {
    let mut s = store();
    s.put("p", "rotates", "v", Some(0), NOW).unwrap();
    s.put("p", "later", "v", Some(30), NOW).unwrap();
    s.put("p", "static", "v", None, NOW).unwrap();
    let paths: Vec<String> = s.due_for_rotation(NOW).into_iter().map(|r| r.path).collect();
    assert!(paths.contains(&"p/rotates".to_string()));
    assert!(!paths.contains(&"p/static".to_string()));
    assert!(!paths.contains(&"p/later".to_string()));
    let month_on: Vec<String> = s
        .due_for_rotation("2026-07-03T00:00:00.000Z")
        .into_iter()
        .map(|r| r.path)
        .collect();
    assert!(month_on.contains(&"p/later".to_string()));
}

#[test]
fn the_latest_version_tells_the_interval() {
    let mut s = store();
    s.put("p", "k", "v", Some(90), NOW).unwrap();
    s.put("p", "k", "w", Some(30), NOW).unwrap();
    assert_eq!(s.list("p")[0].rotation_interval_days, Some(30));
    assert_eq!(s.due_for_rotation("2026-07-20T00:00:00.000Z").len(), 1);
    s.put("p", "k", "x", None, NOW).unwrap();
    assert_eq!(s.list("p")[0].rotation_interval_days, None);
    assert!(s.due_for_rotation("2027-07-20T00:00:00.000Z").is_empty());
}

#[test]
fn rotation_keeps_the_interval() {
    let mut s = store();
    let r = s.put("p", "k", "v", Some(7), NOW).unwrap();
    s.rotate(&r, "2026-06-10T00:00:00.000Z").unwrap();
    let info = &s.list("p")[0];
    assert_eq!(info.version, 2);
    assert_eq!(info.rotation_interval_days, Some(7));
    assert_eq!(info.rotated_at.as_deref(), Some("2026-06-10T00:00:00.000Z"));
    assert!(s.due_for_rotation("2026-06-11T00:00:00.000Z").is_empty());
}

#[test]
fn values_are_sealed_at_rest() {
    let mut s = store();
    s.put("p", "k", "super-secret", None, NOW).unwrap();
    assert!(!s.rows[0].sealed.ciphertext.contains("super-secret"));
    let mut other = BuiltinSecretStore::new([0x0a; 32]);
    other.rows = s.rows;
    assert!(other.get(&at("p/k")).is_err());
}

#[test]
fn paths_come_apart() {
    assert_eq!(parts_of("p/n"), ("p".to_string(), "n".to_string()));
    assert_eq!(parts_of("p/n/m"), ("p".to_string(), "n/m".to_string()));
    assert_eq!(parts_of("n").1, "");
}

#[test]
fn an_unconfigured_store_says_so() {
    let s = UnconfiguredStore::new("vault");
    assert_eq!(s.name(), "vault");
    assert!(s.err().message().contains("vault"));
}

// --- sealing ----------------------------------------------------------------

#[test]
fn hex_is_read_back() {
    let bytes: Vec<u8> = (0..=255).collect();
    let text = to_hex(&bytes);
    assert_eq!(&text[..6], "000102");
    assert_eq!(from_hex(&text).unwrap(), bytes);
    assert_eq!(from_hex("FFfe").unwrap(), vec![255, 254]);
    for bad in ["f", "zz", "é", "0g", "+f"] {
        assert!(from_hex(bad).is_err(), "{bad}");
    }
}

#[test]
fn what_is_sealed_opens_under_its_key_alone() {
    let s = seal(&[1; 32], &[2; 12], b"state", "x").unwrap();
    assert!(is_sound(&s));
    assert_eq!(open(&[1; 32], &s, "x").unwrap(), b"state");
    assert!(open(&[3; 32], &s, "x").is_err());
    let mut bent = Sealed { ciphertext: s.ciphertext.clone(), nonce: s.nonce.clone() };
    bent.ciphertext.replace_range(0..1, if s.ciphertext.starts_with('0') { "1" } else { "0" });
    assert!(open(&[1; 32], &bent, "x").is_err());
    let short = Sealed { ciphertext: s.ciphertext, nonce: "00".to_string() };
    assert!(!is_sound(&short));
}

#[test]
fn sealed_texts_are_those_of_the_known_cipher() {
    let s = seal(&[0; 32], &[0; 12], b"", "x").unwrap();
    assert_eq!(s.ciphertext, "530f8afbc74536b9a963b4f1c4cb738b");
    assert_eq!(s.nonce, "000000000000000000000000");
}

#[test]
fn bytes_that_are_no_text_are_refused() {
    assert_eq!(read_utf8("é".as_bytes().to_vec()).unwrap(), "é");
    assert!(!read_utf8(vec![0xff]).unwrap_err().is_empty());
}

#[test]
fn fresh_secrets_differ() {
    let a = random_secret();
    assert_eq!(a.len(), 64);
    assert!(a.chars().all(|c| c.is_ascii_hexdigit()));
    assert_ne!(a, random_secret());
}

// --- terraform state --------------------------------------------------------

#[test]
fn save_cas_roundtrips_and_rejects_stale_writes() {
    let mut s = TfStateStore::new([0x11; 32]);
    let id = "proj/ecs/web";
    assert!(s.load(id).unwrap().is_none());
    assert!(!s.has(id));
    s.save_cas(id, b"{\"v\":1}", None, NOW).unwrap();
    assert!(s.has(id));
    let (bytes, version) = s.load(id).unwrap().unwrap();
    assert_eq!(bytes, b"{\"v\":1}");
    assert_eq!(version, 1);
    s.save_cas(id, b"{\"v\":2}", Some(1), NOW).unwrap();
    let (bytes, version) = s.load(id).unwrap().unwrap();
    assert_eq!(bytes, b"{\"v\":2}");
    assert_eq!(version, 2);
    assert!(matches!(s.save_cas(id, b"{\"v\":3}", Some(1), NOW), Err(ProvisionError::Conflict(_))));
    assert_eq!(s.load(id).unwrap().unwrap().0, b"{\"v\":2}");
    assert!(matches!(s.save_cas(id, b"{\"v\":9}", None, NOW), Err(ProvisionError::Conflict(_))));
    s.delete(id);
    assert!(s.load(id).unwrap().is_none());
}

#[test]
fn ciphertext_is_not_plaintext() {
    let mut s = TfStateStore::new([0x11; 32]);
    s.save_cas("p/t/n", b"super-secret-state", None, NOW).unwrap();
    assert!(!s.rows[0].sealed.ciphertext.contains("super-secret"));
}

#[test]
fn tfstate_wrong_key_fails_to_decrypt() {
    let mut s = TfStateStore::new([0x11; 32]);
    s.save_cas("p/t/n", b"state", None, NOW).unwrap();
    let mut other = TfStateStore::new([0x22; 32]);
    other.rows = s.rows;
    assert!(other.load("p/t/n").is_err());
}

// --- run logs ---------------------------------------------------------------

#[test]
fn append_and_list_roundtrips_in_order() {
    let mut s = RunLogStore::new([0x11; 32]);
    s.append("1", "res-1", "proj-1", "apply", false, "boom", "t1", "t2", "n1").unwrap();
    s.append("2", "res-1", "proj-1", "apply", true, "ok done", "t3", "t4", "n2").unwrap();
    s.append("3", "res-2", "proj-1", "apply", true, "other", "t5", "t6", "n3").unwrap();
    s.append("0", "res-1", "proj-1", "plan", true, "first", "t0", "t0", "n4").unwrap();
    let runs = s.list_for_resource("res-1").unwrap();
    assert_eq!(runs.len(), 3);
    let outputs: Vec<&str> = runs.iter().map(|r| r.output.as_str()).collect();
    assert!(outputs.contains(&"boom") && outputs.contains(&"ok done"));
    let b = outputs.iter().position(|o| *o == "boom").unwrap();
    let o = outputs.iter().position(|o| *o == "ok done").unwrap();
    assert!(b < o);
    assert!(!runs[b].ok && runs[o].ok);
}

#[test]
fn output_is_encrypted_at_rest() {
    let mut s = RunLogStore::new([0x11; 32]);
    s.append("1", "r", "p", "apply", true, "super-secret-token", "t1", "t2", "n").unwrap();
    assert!(!s.rows[0].sealed.ciphertext.contains("super-secret"));
}

#[test]
fn runlog_wrong_key_fails_to_decrypt() {
    let mut s = RunLogStore::new([0x11; 32]);
    s.append("1", "r", "p", "apply", true, "x", "t1", "t2", "n").unwrap();
    let mut other = RunLogStore::new([0x22; 32]);
    other.rows = s.rows;
    assert!(other.list_for_resource("r").is_err());
}
