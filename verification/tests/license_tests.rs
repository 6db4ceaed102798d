use autocapcut::license::cache::{derive_key, load_license_cache, open_license_cache, seal_license_cache, CacheFile, CACHE_VERSION};
use autocapcut::license::fingerprint::{
    accept_registry_value, accept_wmi_output, cpu_id_text, dev_fingerprint, fingerprint_id_of, generate_fingerprint,
    join_components, sorted_by_kind, text_le, trim_text, FingerprintComponent, FingerprintSources,
};
use autocapcut::license::gate::{can_run_automation, get_project_limit, FREE_TIER_PROJECTS};
use autocapcut::license::validator::LicenseStatus;
use autocapcut::license::{
    activation_outcome, background_decision, deactivation_outcome, get_machine_fingerprint, refresh_decision, status_at,
    status_from_cache, LicenseData, LicenseResponse, LicenseState, OFFLINE_GRACE_SECS,
};

fn data(expires_at: Option<&str>, last: i64) -> LicenseData {
    LicenseData {
        license_key: "KEY-1".to_string(),
        plan: "Basic".to_string(),
        expires_at: expires_at.map(|s| s.to_string()),
        last_validated_at: last,
    }
}

fn reply(valid: bool, plan: Option<&str>, expires_at: Option<&str>, error: Option<&str>) -> LicenseResponse {
    LicenseResponse {
        valid,
        plan: plan.map(|s| s.to_string()),
        expires_at: expires_at.map(|s| s.to_string()),
        error: error.map(|s| s.to_string()),
    }
}

fn comp(kind: &str, value: &str) -> FingerprintComponent {
    FingerprintComponent { kind: kind.to_string(), value: value.to_string() }
}

#[test]
fn valid_status_is_usable() {
    let s = LicenseStatus::Valid { plan: "Pro".to_string(), expires_at: None };
    assert!(s.is_usable());
    assert!(!LicenseStatus::NotActivated.is_usable());
    assert!(!LicenseStatus::Expired { expired_at: "x".to_string() }.is_usable());
    assert!(!LicenseStatus::Invalid { reason: "x".to_string() }.is_usable());
}

#[test]
fn license_state_starts_not_activated_and_keeps_what_is_set() {
    let mut st = LicenseState::new();
    assert!(matches!(st.get(), LicenseStatus::NotActivated));
    st.set(LicenseStatus::Valid { plan: "Pro".to_string(), expires_at: Some("2030-01-01T00:00:00Z".to_string()) });
    match st.get() {
        LicenseStatus::Valid { plan, expires_at } => {
            assert_eq!(plan, "Pro");
            assert_eq!(expires_at.as_deref(), Some("2030-01-01T00:00:00Z"));
        },
        other => panic!("unexpected {:?}", other),
    }
}

#[test]
fn status_at_expires_only_after_the_expiry_time() {
    let d = data(Some("2020-01-01T00:00:00Z"), 0);
    match status_at(&d, Some(100), 200) {
        LicenseStatus::Expired { expired_at } => assert_eq!(expired_at, "2020-01-01T00:00:00Z"),
        other => panic!("unexpected {:?}", other),
    }
    // at the expiry instant itself the license is still valid
    assert!(status_at(&d, Some(100), 100).is_usable());
    assert!(status_at(&d, Some(100), 50).is_usable());
    // an expiry that does not read as a time keeps the license valid
    assert!(status_at(&d, None, 200).is_usable());
}

#[test]
fn status_from_cache_reads_the_expiry_date() {
    match status_from_cache(&data(Some("2000-01-01T00:00:00Z"), 0)) {
        LicenseStatus::Expired { expired_at } => assert_eq!(expired_at, "2000-01-01T00:00:00Z"),
        other => panic!("unexpected {:?}", other),
    }
    match status_from_cache(&data(Some("2999-01-01T00:00:00+07:00"), 0)) {
        LicenseStatus::Valid { plan, expires_at } => {
            assert_eq!(plan, "Basic");
            assert_eq!(expires_at.as_deref(), Some("2999-01-01T00:00:00+07:00"));
        },
        other => panic!("unexpected {:?}", other),
    }
    assert!(status_from_cache(&data(Some("not a date"), 0)).is_usable());
    assert!(status_from_cache(&data(None, 0)).is_usable());
}

#[test]
fn background_decision_renews_on_a_positive_reply() {
    let d = data(Some("old"), 10);
    let r = background_decision(&d, &Ok(reply(true, None, Some("2031-01-01T00:00:00Z"), None)), 5000);
    let saved = r.save.expect("data to cache");
    assert_eq!(saved.license_key, "KEY-1");
    assert_eq!(saved.plan, "Basic");
    assert_eq!(saved.expires_at.as_deref(), Some("2031-01-01T00:00:00Z"));
    assert_eq!(saved.last_validated_at, 5000);
    assert!(!r.clear_cache);
    match r.status {
        Some(LicenseStatus::Valid { plan, expires_at }) => {
            assert_eq!(plan, "Basic");
            assert_eq!(expires_at.as_deref(), Some("2031-01-01T00:00:00Z"));
        },
        other => panic!("unexpected {:?}", other),
    }
    let r = background_decision(&d, &Ok(reply(true, Some("Pro"), None, None)), 7);
    assert_eq!(r.save.unwrap().plan, "Pro");
}

#[test]
fn background_decision_clears_on_a_negative_reply() {
    let d = data(None, 10);
    let r = background_decision(&d, &Ok(reply(false, None, None, None)), 20);
    assert!(r.save.is_none());
    assert!(r.clear_cache);
    match r.status {
        Some(LicenseStatus::Invalid { reason }) => assert_eq!(reason, "License không còn hợp lệ"),
        other => panic!("unexpected {:?}", other),
    }
    let r = background_decision(&d, &Ok(reply(false, None, None, Some("Revoked"))), 20);
    match r.status {
        Some(LicenseStatus::Invalid { reason }) => assert_eq!(reason, "Revoked"),
        other => panic!("unexpected {:?}", other),
    }
}

#[test]
fn offline_grace_period_lasts_seven_days() {
    assert_eq!(OFFLINE_GRACE_SECS, 7 * 24 * 3600);
    let d = data(None, 1_000);
    let unreachable: Result<LicenseResponse, String> = Err("timeout".to_string());
    let r = background_decision(&d, &unreachable, 1_000 + OFFLINE_GRACE_SECS);
    assert!(r.status.is_none());
    assert!(r.save.is_none());
    assert!(!r.clear_cache);
    let r = background_decision(&d, &unreachable, 1_000 + OFFLINE_GRACE_SECS + 1);
    assert!(r.save.is_none());
    assert!(!r.clear_cache);
    match r.status {
        Some(LicenseStatus::Invalid { reason }) => {
            assert_eq!(reason, "Không thể xác minh license (offline quá 7 ngày).")
        },
        other => panic!("unexpected {:?}", other),
    }
}

#[test]
fn refresh_uses_its_own_fallback_reason() {
    let d = data(None, 0);
    match refresh_decision(&d, &reply(false, None, None, None), 1).status {
        Some(LicenseStatus::Invalid { reason }) => assert_eq!(reason, "License không hợp lệ"),
        other => panic!("unexpected {:?}", other),
    }
    let r = refresh_decision(&d, &reply(true, Some("Team"), None, None), 99);
    assert_eq!(r.save.as_ref().unwrap().last_validated_at, 99);
    assert!(r.status.unwrap().is_usable());
}

#[test]
fn activation_defaults_the_plan_and_reports_refusals() {
    match activation_outcome("ABC", &reply(false, None, None, None), 5) {
        Err(e) => assert_eq!(e, "Kích hoạt thất bại"),
        Ok(_) => panic!("accepted"),
    }
    match activation_outcome("ABC", &reply(false, None, None, Some("Key used")), 5) {
        Err(e) => assert_eq!(e, "Key used"),
        Ok(_) => panic!("accepted"),
    }
    let (d, s) = activation_outcome("ABC", &reply(true, None, Some("2030-05-05T00:00:00Z"), None), 5).unwrap();
    assert_eq!(d.license_key, "ABC");
    assert_eq!(d.plan, "Pro");
    assert_eq!(d.expires_at.as_deref(), Some("2030-05-05T00:00:00Z"));
    assert_eq!(d.last_validated_at, 5);
    match s {
        LicenseStatus::Valid { plan, .. } => assert_eq!(plan, "Pro"),
        other => panic!("unexpected {:?}", other),
    }
}

#[test]
fn deactivation_reports_the_server_error() {
    assert!(deactivation_outcome(true, &Some("ignored".to_string())).is_ok());
    assert_eq!(deactivation_outcome(false, &None).unwrap_err(), "Deactivate thất bại");
    assert_eq!(deactivation_outcome(false, &Some("No such key".to_string())).unwrap_err(), "No such key");
}

#[test]
fn machine_fingerprint_shows_eight_characters() {
    assert_eq!(get_machine_fingerprint("1f86eeea298e3aa0"), "1f86eeea");
    assert_eq!(get_machine_fingerprint("abc"), "abc");
    assert_eq!(get_machine_fingerprint(""), "");
}

#[test]
fn gate_blocks_expired_and_invalid_licenses() {
    assert_eq!(
        can_run_automation(&LicenseStatus::Expired { expired_at: "2024-01-01".to_string() }).unwrap_err(),
        "License đã hết hạn (2024-01-01)."
    );
    assert_eq!(
        can_run_automation(&LicenseStatus::Invalid { reason: "revoked".to_string() }).unwrap_err(),
        "License không hợp lệ: revoked"
    );
    assert!(can_run_automation(&LicenseStatus::NotActivated).is_ok());
    assert!(can_run_automation(&LicenseStatus::Valid { plan: "Pro".to_string(), expires_at: None }).is_ok());
}

#[test]
fn project_limit_is_lifted_by_a_valid_license() {
    assert_eq!(FREE_TIER_PROJECTS, 3);
    assert_eq!(get_project_limit(&LicenseStatus::Valid { plan: "Pro".to_string(), expires_at: None }), None);
    assert_eq!(get_project_limit(&LicenseStatus::NotActivated), Some(3));
    assert_eq!(get_project_limit(&LicenseStatus::Expired { expired_at: "x".to_string() }), Some(3));
}

#[test]
fn cache_round_trip_gives_the_data_back() {
    let plaintext = br#"{"license_key":"K","plan":"Pro","expires_at":null,"last_validated_at":1}"#;
    let file = seal_license_cache(plaintext, "machine-1", "secret").expect("sealed");
    assert_eq!(file.version, CACHE_VERSION);
    assert_eq!(file.nonce.len(), 16);
    assert_ne!(file.ciphertext.as_bytes(), plaintext.as_slice());
    let back = load_license_cache(&file, "machine-1", "secret").expect("nonce fits");
    assert_eq!(back.as_deref(), Some(plaintext.as_slice()));
    assert_eq!(open_license_cache(&file, "machine-1", "secret").as_deref(), Some(plaintext.as_slice()));
}

#[test]
fn cache_is_unreadable_on_another_machine_or_version() {
    let file = seal_license_cache(b"payload", "machine-1", "secret").unwrap();
    assert_eq!(load_license_cache(&file, "machine-2", "secret"), Some(None));
    assert_eq!(load_license_cache(&file, "machine-1", "other"), Some(None));
    let old = CacheFile { version: 1, nonce: file.nonce.clone(), ciphertext: file.ciphertext.clone() };
    assert_eq!(load_license_cache(&old, "machine-1", "secret"), Some(None));
    let garbled = CacheFile { version: CACHE_VERSION, nonce: "***".to_string(), ciphertext: file.ciphertext.clone() };
    assert_eq!(load_license_cache(&garbled, "machine-1", "secret"), Some(None));
    // a nonce of three bytes is refused before decryption
    let short = CacheFile { version: CACHE_VERSION, nonce: "AAAA".to_string(), ciphertext: file.ciphertext.clone() };
    assert_eq!(load_license_cache(&short, "machine-1", "secret"), None);
}

#[test]
fn each_seal_uses_a_fresh_nonce() {
    let a = seal_license_cache(b"same", "m", "s").unwrap();
    let b = seal_license_cache(b"same", "m", "s").unwrap();
    assert_ne!(a.nonce, b.nonce);
}

#[test]
fn cache_key_depends_on_machine_and_secret() {
    let k1 = derive_key("machine-1", "secret");
    assert_eq!(k1.len(), 32);
    assert_eq!(k1, derive_key("machine-1", "secret"));
    assert_ne!(k1, derive_key("machine-2", "secret"));
    assert_ne!(k1, derive_key("machine-1", "secret2"));
}

#[test]
fn dev_fingerprint_is_fixed() {
    let f = dev_fingerprint();
    assert_eq!(f.id, "dev-fingerprint-non-windows");
    assert_eq!(f.component_count, 1);
    assert_eq!(f.components.len(), 1);
    assert_eq!(f.components[0].kind, "DevMode");
    assert_eq!(f.components[0].value, "non-windows");
}

#[test]
fn fingerprint_keeps_real_values_and_hashes_them_sorted_by_kind() {
    let src = FingerprintSources {
        machine_guid: Some("  ABC-123  ".to_string()),
        product_id: Some("None".to_string()),
        cpu_id: Some((0x000906EA, 0x7FFAFBBF)),
        board_serial: Some(b"To be filled by O.E.M.\r\n".to_vec()),
        disk_serial: Some(b"  S3Z9NB0K  \r\n".to_vec()),
    };
    let f = generate_fingerprint(&src);
    assert_eq!(f.component_count, 3);
    let kinds: Vec<&str> = f.components.iter().map(|c| c.kind.as_str()).collect();
    assert_eq!(kinds, vec!["MachineGuid", "CpuId", "DiskSerial"]);
    assert_eq!(f.components[0].value, "ABC-123");
    assert_eq!(f.components[1].value, "000906EA7FFAFBBF");
    assert_eq!(f.components[2].value, "S3Z9NB0K");
    assert_eq!(f.id, "1f86eeea298e3aa01882b1d7bedab0d045ed9545d1a872491c491089582572dd");
}

#[test]
fn fingerprint_of_nothing_is_the_hash_of_nothing() {
    let src = FingerprintSources { machine_guid: None, product_id: None, cpu_id: None, board_serial: None, disk_serial: None };
    let f = generate_fingerprint(&src);
    assert_eq!(f.component_count, 0);
    assert_eq!(f.id, "e3b0c44298fc1c149afbf4c8996fb92427ae41e4649b934ca495991b7852b855");
}

#[test]
fn fingerprint_id_does_not_depend_on_component_order() {
    let a = vec![comp("B", "2"), comp("A", "1")];
    let b = vec![comp("A", "1"), comp("B", "2")];
    assert_eq!(fingerprint_id_of(&a), fingerprint_id_of(&b));
    assert_eq!(fingerprint_id_of(&a), "ce9725998686cf2dd36a84f9e0cc4d5368997f55cb5cb8c84cb6a5ab63552682");
}

#[test]
fn components_sort_stably_by_kind() {
    let v = vec![comp("b", "1"), comp("a", "2"), comp("b", "0"), comp("B", "3")];
    let s = sorted_by_kind(&v);
    let got: Vec<(String, String)> = s.iter().map(|c| (c.kind.clone(), c.value.clone())).collect();
    let want: Vec<(String, String)> = vec![
        ("B".to_string(), "3".to_string()),
        ("a".to_string(), "2".to_string()),
        ("b".to_string(), "1".to_string()),
        ("b".to_string(), "0".to_string()),
    ];
    assert_eq!(got, want);
    assert_eq!(join_components(&s), "B:3|a:2|b:1|b:0");
    assert_eq!(join_components(&Vec::new()), "");
}

#[test]
fn text_order_is_by_code_point() {
    assert!(text_le("CpuId", "DiskSerial"));
    assert!(!text_le("MachineGuid", "DiskSerial"));
    assert!(text_le("ab", "abc"));
    assert!(!text_le("abc", "ab"));
    assert!(text_le("x", "x"));
    assert!(text_le("Z", "a"));
}

#[test]
fn placeholder_values_are_rejected() {
    assert_eq!(accept_registry_value("  GUID-1 \t"), Some("GUID-1".to_string()));
    assert_eq!(accept_registry_value("   "), None);
    assert_eq!(accept_registry_value("None"), None);
    assert_eq!(accept_registry_value("To be filled by O.E.M."), None);
    assert_eq!(accept_wmi_output(b"Default string\r\n"), None);
    assert_eq!(accept_wmi_output(b"Board Not Specified"), None);
    assert_eq!(accept_wmi_output(b"xx To be filled yy"), None);
    assert_eq!(accept_wmi_output(b"\r\n"), None);
    assert_eq!(accept_wmi_output(b" PF1X2Y3Z \r\n"), Some("PF1X2Y3Z".to_string()));
    assert_eq!(accept_wmi_output(&[0x41, 0xff, 0x42]), Some("A\u{fffd}B".to_string()));
}

#[test]
fn cpu_id_is_sixteen_upper_case_hex_digits() {
    assert_eq!(cpu_id_text(0x000906EA, 0x7FFAFBBF), "000906EA7FFAFBBF");
    assert_eq!(cpu_id_text(0, 0xFFFFFFFF), "00000000FFFFFFFF");
}

#[test]
fn trimming_takes_unicode_white_space_from_both_ends() {
    assert_eq!(trim_text("  \t abc def \u{3000}\n"), "abc def");
    assert_eq!(trim_text("\u{85}\u{a0}x\u{2028}"), "x");
    assert_eq!(trim_text("\u{200b}x"), "\u{200b}x");
    assert_eq!(trim_text(" \r\n "), "");
    assert_eq!(trim_text(""), "");
    for s in ["  a b  ", "\u{1680}q\u{205f}", "z", "\t\u{2000}\u{200a}"] {
        assert_eq!(trim_text(s), s.trim());
    }
}
