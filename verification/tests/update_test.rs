use barepdf::update::body::{BrokenBody, CancelOnReadBody};
use barepdf::presentation::update_ui::{update_action, UpdateAction};
use barepdf::update::manifest::check_installer_version;
use barepdf::application::update_controller::{UpdateConsent, UpdateController, UpdateUiState};
use barepdf::presentation::update_ui::{
    available_status, release_note_headline, startup_update_check_should_run, update_check_is_due,
    update_ui_plan, AUTO_CHECK_INTERVAL_SECONDS,
};
use barepdf::update::body::{
    read_capped_body, reject_oversized_download, validate_download_size, validate_metadata_size,
    CappedBody, MemoryBody, BODY_READ_CHUNK_BYTES, MAX_METADATA_BYTES, METADATA_READ_LIMIT,
};
use barepdf::update::failure::UpdateFailure;
use barepdf::update::manifest::{
    check_manifest, expected_file_version, validate_installer_url, validate_release_url,
    InstallerManifest, UpdateManifest, VerifiedUpdate, MAX_INSTALLER_BYTES, METADATA_SIGNATURE_URL,
    METADATA_URL,
};
use barepdf::update::signature::{
    decode_hex, decode_public_key, verify_manifest_signature_with_key, verify_manifest_text,
};
use barepdf::update::transport::{
    validate_redirect_target, validate_request_url, RequestTarget, MAX_REDIRECTS,
};
use barepdf::update::version::SemVer;
use ed25519_dalek::{Signer, SigningKey};
use std::sync::atomic::AtomicBool;
use barepdf::update::integrity::{installer_file_name_text, partial_file_name_text, InstallerIntegrity};
use barepdf::update::transport::response_step;

#[test]
fn consent_maps_the_persisted_three_state_value_without_a_second_field() {
    assert_eq!(UpdateConsent::from(None), UpdateConsent::Undecided);
    assert_eq!(UpdateConsent::from(Some(false)), UpdateConsent::Disabled);
    assert_eq!(UpdateConsent::from(Some(true)), UpdateConsent::Enabled);
    assert!(!UpdateConsent::Undecided.is_enabled());
    assert!(!UpdateConsent::Disabled.is_enabled());
    assert!(UpdateConsent::Enabled.is_enabled());
}

#[test]
fn lifecycle_keeps_busy_state_in_its_variant() {
    let mut updates = UpdateController::default();

    assert_eq!(updates.ui_state(), UpdateUiState::Ready);
    assert!(!updates.is_busy());
    assert!(updates.begin_check());
    assert_eq!(updates.ui_state(), UpdateUiState::Checking);
    assert!(updates.is_busy());
    assert!(!updates.begin_check());

    updates.mark_current();
    assert_eq!(updates.ui_state(), UpdateUiState::Current);
    assert!(!updates.is_busy());
}

#[test]
fn failed_operations_leave_no_busy_flag_behind() {
    let mut updates = UpdateController::default();
    assert!(updates.begin_check());

    updates.mark_failed();

    assert_eq!(updates.ui_state(), UpdateUiState::Error);
    assert!(!updates.is_busy());
}

fn sample_update(version: &str) -> VerifiedUpdate {
    VerifiedUpdate::for_test(version, "a".repeat(64), 1024)
}

#[test]
fn offered_update_moves_through_download_and_install() {
    let mut updates = UpdateController::new();
    assert!(updates.begin_download().is_none());
    updates.mark_available(sample_update("1.2.0"));
    assert_eq!(updates.available_update().map(|u| u.version()), Some("1.2.0"));
    assert_eq!(
        updates.release_url(),
        Some("https://github.com/Woffluon/BarePDF/releases/tag/v1.2.0")
    );
    let update = updates.begin_download().expect("an offered update downloads");
    assert_eq!(update.version(), "1.2.0");
    assert_eq!(updates.ui_state(), UpdateUiState::Downloading);
    assert!(updates.is_busy());
    assert!(updates.begin_install().is_none());
    updates.mark_downloaded("C:/updates/setup.exe".to_string(), update);
    assert_eq!(updates.ui_state(), UpdateUiState::Verified);
    let (path, update) = updates.begin_install().expect("a verified update installs");
    assert_eq!(path, "C:/updates/setup.exe");
    assert_eq!(update.version(), "1.2.0");
    assert_eq!(updates.ui_state(), UpdateUiState::Installing);
    assert!(!updates.begin_check());
}

#[test]
fn automatic_update_checks_are_evaluated_only_at_startup() {
    assert!(update_check_is_due(None, 100_000));
    let last = Some(100_000);
    assert!(!update_check_is_due(last, 100_001));
    assert!(update_check_is_due(last, 99_999));
    assert!(update_check_is_due(last, 100_000 + AUTO_CHECK_INTERVAL_SECONDS));

    let mut update = UpdateController::default();
    assert!(startup_update_check_should_run(
        &update,
        Some(true),
        last,
        100_000 + AUTO_CHECK_INTERVAL_SECONDS
    ));
    assert!(update.begin_check());
    assert!(!startup_update_check_should_run(
        &update,
        Some(true),
        last,
        100_000 + AUTO_CHECK_INTERVAL_SECONDS
    ));
}

#[test]
fn automatic_checks_need_consent() {
    let update = UpdateController::default();
    assert!(!startup_update_check_should_run(&update, None, None, 5));
    assert!(!startup_update_check_should_run(&update, Some(false), None, 5));
    assert!(startup_update_check_should_run(&update, Some(true), None, 5));
}

#[test]
fn update_section_plan_follows_the_state() {
    let ready = update_ui_plan(UpdateUiState::Ready, true);
    assert_eq!(ready.status_key, "updates.status.ready");
    assert_eq!(ready.action_key, None);
    assert!(!ready.action_enabled && !ready.show_banner);

    let verified = update_ui_plan(UpdateUiState::Verified, false);
    assert_eq!(verified.action_key, Some("updates.action.install"));
    assert!(verified.action_enabled && verified.show_banner);

    assert_eq!(
        update_ui_plan(UpdateUiState::Available, true).action_key,
        Some("updates.action.download")
    );
    assert_eq!(
        update_ui_plan(UpdateUiState::Available, false).action_key,
        Some("updates.action.release")
    );
}

#[test]
fn release_notes_headline_is_the_first_line_cut_to_160_characters() {
    assert_eq!(release_note_headline("Security fixes\nMore details"), "Security fixes");
    assert_eq!(release_note_headline(""), "");
    let long = "é".repeat(200);
    assert_eq!(release_note_headline(&long).chars().count(), 160);
    assert_eq!(available_status("Update available", "1.2.0", ""), "Update available v1.2.0");
    assert_eq!(
        available_status("Update available", "1.2.0", "Fixes\nrest"),
        "Update available v1.2.0 — Fixes"
    );
}

fn manifest(version: &str, url_version: &str, hash: &str, size: u64) -> UpdateManifest {
    UpdateManifest {
        schema_version: 1,
        version: version.to_string(),
        release_url: format!("https://github.com/Woffluon/BarePDF/releases/tag/v{url_version}"),
        release_notes: String::new(),
        installer: InstallerManifest {
            url: format!(
                "https://github.com/Woffluon/BarePDF/releases/download/v{url_version}/BarePDF-Setup-x64-v{url_version}.exe"
            ),
            sha256: hash.to_string(),
            size,
        },
    }
}

#[test]
fn manifest_accepts_only_newer_matching_stable_release() {
    let hash = "a".repeat(64);
    let update = check_manifest(manifest("1.2.0", "1.2.0", &hash, 1024), "1.1.0");
    assert!(matches!(update, Ok(Some(ref update)) if update.version() == "1.2.0"));
    assert!(matches!(
        check_manifest(manifest("1.1.0", "1.1.0", &hash, 1024), "1.1.0"),
        Ok(None)
    ));
    assert!(check_manifest(manifest("1.2.0-beta.1", "1.2.0-beta.1", &hash, 1024), "1.1.0").is_err());
}

#[test]
fn manifest_rejects_mismatched_urls_hashes_and_sizes() {
    let hash = "a".repeat(64);
    assert!(check_manifest(manifest("1.2.0", "1.3.0", &hash, 1024), "1.1.0").is_err());
    assert!(check_manifest(manifest("1.2.0", "1.2.0", "bad", 1024), "1.1.0").is_err());
    assert!(check_manifest(manifest("1.2.0", "1.2.0", &hash, 0), "1.1.0").is_err());
    assert!(check_manifest(
        manifest("1.2.0", "1.2.0", &hash, MAX_INSTALLER_BYTES + 1),
        "1.1.0"
    )
    .is_err());
}

#[test]
fn manifest_hash_is_stored_in_lowercase() {
    let update = check_manifest(manifest("1.2.0", "1.2.0", &"AB".repeat(32), 1024), "1.1.0")
        .expect("upper-case hex is accepted")
        .expect("a newer release is offered");
    assert_eq!(update.installer_sha256(), "ab".repeat(32));
}

#[test]
fn manifest_rejections_name_their_reason() {
    let hash = "a".repeat(64);
    let mut unsupported = manifest("1.2.0", "1.2.0", &hash, 1024);
    unsupported.schema_version = 2;
    assert!(matches!(
        check_manifest(unsupported, "1.1.0"),
        Err(UpdateFailure::Rejected("Unsupported update metadata version"))
    ));
    assert!(matches!(
        check_manifest(manifest("1.2.0", "1.2.0", "bad", 1024), "1.1.0"),
        Err(UpdateFailure::Rejected("Invalid installer SHA-256"))
    ));
    assert!(matches!(
        check_manifest(manifest("1.2.0", "1.2.0", &hash, 0), "1.1.0"),
        Err(UpdateFailure::Rejected("Installer size is outside the allowed range"))
    ));
    assert!(matches!(
        check_manifest(manifest("not a version", "1.2.0", &hash, 1024), "1.1.0"),
        Err(UpdateFailure::Version { operation: "Invalid release version", .. })
    ));
    assert!(matches!(
        check_manifest(manifest("1.2.0", "1.2.0", &hash, 1024), "garbage"),
        Err(UpdateFailure::Version { operation: "Invalid application version", .. })
    ));
}

#[test]
fn release_and_installer_urls_must_name_the_version() {
    assert!(validate_release_url("https://github.com/Woffluon/BarePDF/releases/tag/v1.2.0", "1.2.0").is_ok());
    assert!(validate_release_url("https://github.com/Woffluon/BarePDF/releases/tag/v1.2.0-old", "1.2.0").is_err());
    assert!(validate_installer_url(
        "https://github.com/Woffluon/BarePDF/releases/download/v1.2.0/BarePDF-Setup-x64-v1.2.0.exe",
        "1.2.0"
    )
    .is_ok());
    assert!(validate_installer_url(
        "https://github.com/Woffluon/BarePDF/releases/download/v1.2.0/BarePDF-Setup-x64.exe",
        "1.2.0"
    )
    .is_err());
    assert!(validate_installer_url(
        "http://github.com/Woffluon/BarePDF/releases/download/v1.2.0/BarePDF-Setup-x64-v1.2.0.exe",
        "1.2.0"
    )
    .is_err());
}

#[test]
fn semantic_versions_map_exactly_to_windows_file_versions() {
    let version = SemVer::parse("12.34.56").expect("version");
    assert_eq!(expected_file_version(&version).expect("Windows version"), [12, 34, 56, 0]);
    assert!(expected_file_version(&SemVer::parse("65536.0.0").expect("version")).is_err());
    assert!(expected_file_version(&SemVer::parse("1.2.3+build").expect("version")).is_err());
}

#[test]
fn metadata_size_limit_is_inclusive() {
    let limit = usize::try_from(MAX_METADATA_BYTES).expect("metadata limit fits usize");
    for length in [limit - 1, limit] {
        assert!(validate_metadata_size(&vec![0_u8; length]).is_ok());
    }
    assert!(matches!(
        validate_metadata_size(&vec![0_u8; limit + 1]),
        Err(UpdateFailure::Rejected("Update metadata exceeds the allowed size"))
    ));
}

#[test]
fn capped_reader_retains_one_byte_for_metadata_overflow_detection() {
    let limit = usize::try_from(METADATA_READ_LIMIT).expect("metadata read limit fits usize");
    let cancelled = AtomicBool::new(false);
    let mut reader = MemoryBody::new(vec![0_u8; limit + 1]);
    let body = read_capped_body(&mut reader, METADATA_READ_LIMIT, &cancelled, "test body read")
        .expect("capped read");

    assert_eq!(body.len(), limit);
    assert!(validate_metadata_size(&body).is_err());
}

#[test]
fn capped_reader_stops_at_the_end_and_when_cancelled() {
    let cancelled = AtomicBool::new(false);
    let mut reader = MemoryBody::new(b"short body".to_vec());
    let body = read_capped_body(&mut reader, 100, &cancelled, "test body read").expect("read");
    assert_eq!(body, b"short body".to_vec());

    let cancelled = AtomicBool::new(true);
    let mut reader = MemoryBody::new(vec![1_u8; 4]);
    assert!(matches!(
        read_capped_body(&mut reader, 100, &cancelled, "test body read"),
        Err(UpdateFailure::Cancelled)
    ));
}

#[test]
fn download_size_must_match_exactly() {
    assert!(validate_download_size(10, 10).is_ok());
    assert!(matches!(
        validate_download_size(9, 10),
        Err(UpdateFailure::Rejected("Downloaded installer size does not match metadata"))
    ));
    assert!(matches!(
        validate_download_size(11, 10),
        Err(UpdateFailure::Rejected("Downloaded installer exceeds the declared size"))
    ));
    assert!(reject_oversized_download(10, 10).is_ok());
    assert!(reject_oversized_download(11, 10).is_err());
}

fn public_key_hex(signing_key: &SigningKey) -> String {
    signing_key
        .verifying_key()
        .to_bytes()
        .iter()
        .map(|byte| format!("{byte:02x}"))
        .collect()
}

#[test]
fn signature_is_verified_before_manifest_parsing() {
    let signing_key = SigningKey::from_bytes(&[7_u8; 32]);
    let public_key = public_key_hex(&signing_key);
    let manifest = b"signed update metadata";
    let signature = signing_key.sign(manifest).to_bytes();
    assert!(verify_manifest_signature_with_key(manifest, &signature, &public_key).is_ok());
    assert!(verify_manifest_signature_with_key(b"tampered", &signature, &public_key).is_err());
    assert!(verify_manifest_signature_with_key(manifest, &signature[..63], &public_key).is_err());
    let oversized_signature = [0_u8; 65];
    assert!(verify_manifest_signature_with_key(manifest, &oversized_signature, &public_key).is_err());
}

#[test]
fn invalid_signature_rejects_malformed_json_before_parsing() {
    let signing_key = SigningKey::from_bytes(&[9_u8; 32]);
    let public_key = public_key_hex(&signing_key);
    let malformed_json = b"{not-json";
    let unrelated_signature = signing_key.sign(b"different metadata").to_bytes();

    assert!(matches!(
        verify_manifest_text(malformed_json, &unrelated_signature, &public_key),
        Err(UpdateFailure::Rejected("Update metadata signature verification failed"))
    ));
}

#[test]
fn verified_metadata_is_handed_on_as_text() {
    let signing_key = SigningKey::from_bytes(&[3_u8; 32]);
    let public_key = public_key_hex(&signing_key);
    let manifest = br#"{"schemaVersion":1}"#;
    let signature = signing_key.sign(manifest).to_bytes();
    assert_eq!(
        verify_manifest_text(manifest, &signature, &public_key).expect("valid"),
        r#"{"schemaVersion":1}"#
    );
    let bad_utf8 = [0xff_u8, 0xfe];
    let signature = signing_key.sign(&bad_utf8).to_bytes();
    assert!(matches!(
        verify_manifest_text(&bad_utf8, &signature, &public_key),
        Err(UpdateFailure::Rejected("Update metadata is not valid UTF-8"))
    ));
}

#[test]
fn public_keys_are_64_hex_digits() {
    assert!(decode_public_key(&"0".repeat(64)).is_ok());
    assert_eq!(decode_public_key(&format!(" {} ", "1f".repeat(32))).expect("key"), [0x1f; 32]);
    assert!(decode_public_key(&"0".repeat(63)).is_err());
    assert!(decode_public_key(&"g".repeat(64)).is_err());
    assert_eq!(decode_hex(b'B').ok(), Some(11));
    assert!(decode_hex(b'x').is_err());
}

#[test]
fn transport_requests_accept_only_approved_https_hosts_and_paths() {
    assert!(validate_request_url(METADATA_URL, RequestTarget::Metadata).is_ok());
    assert!(validate_request_url(METADATA_SIGNATURE_URL, RequestTarget::Metadata).is_ok());
    assert!(validate_request_url(
        "https://github.com/Woffluon/BarePDF/releases/download/v1.2.0/latest.json",
        RequestTarget::Metadata
    )
    .is_ok());
    assert!(validate_request_url(
        "https://release-assets.githubusercontent.com/github-production-release-asset/123/abc?token=signed",
        RequestTarget::Metadata
    )
    .is_ok());
    for url in [
        "http://github.com/Woffluon/BarePDF/releases/latest/download/latest.json",
        "https://example.com/Woffluon/BarePDF/releases/latest/download/latest.json",
        "https://github.com/Woffluon/Other/releases/latest/download/latest.json",
        "https://release-assets.githubusercontent.com/unapproved/file",
    ] {
        assert!(validate_request_url(url, RequestTarget::Metadata).is_err());
    }
}

#[test]
fn installer_requests_must_name_the_version() {
    let url = "https://github.com/Woffluon/BarePDF/releases/download/v1.2.0/BarePDF-Setup-x64-v1.2.0.exe";
    assert!(validate_request_url(url, RequestTarget::Installer("1.2.0")).is_ok());
    assert!(validate_request_url(url, RequestTarget::Installer("1.3.0")).is_err());
    assert!(validate_request_url("https://github.com:8443/x", RequestTarget::Metadata).is_err());
}

#[test]
fn every_redirect_hop_enforces_status_limit_location_and_allowlist() {
    let valid = "https://release-assets.githubusercontent.com/github-production-release-asset/123/file?token=signed";
    assert!(validate_redirect_target(302, 0, Some(valid), RequestTarget::Metadata).is_ok());
    assert!(validate_redirect_target(300, 0, Some(valid), RequestTarget::Metadata).is_err());
    assert!(validate_redirect_target(301, MAX_REDIRECTS, Some(valid), RequestTarget::Metadata).is_err());
    assert!(validate_redirect_target(301, 0, None, RequestTarget::Metadata).is_err());
    assert!(validate_redirect_target(
        301,
        0,
        Some("https://example.com/github-production-release-asset/123/file"),
        RequestTarget::Metadata,
    )
    .is_err());
    assert!(validate_redirect_target(
        301,
        0,
        Some("https://github.com/Woffluon/BarePDF/releases/latest/download/other.json"),
        RequestTarget::Metadata,
    )
    .is_err());
}

#[test]
fn installer_integrity_needs_the_declared_size_and_hash() {
    let abc_sha256 = "ba7816bf8f01cfea414140de5dae2223b00361a396177a9cb410ff61f20015ad";
    let mut check = InstallerIntegrity::new(3, abc_sha256);
    assert!(check.absorb(b"ab").is_ok());
    assert!(check.absorb(b"c").is_ok());
    assert!(check.finish("Downloaded installer changed after verification").is_ok());

    let mut check = InstallerIntegrity::new(3, abc_sha256);
    assert!(check.absorb(b"abd").is_ok());
    assert!(matches!(
        check.finish("Downloaded installer changed after verification"),
        Err(UpdateFailure::Rejected("Downloaded installer changed after verification"))
    ));

    let mut check = InstallerIntegrity::new(2, abc_sha256);
    assert!(matches!(
        check.absorb(b"abc"),
        Err(UpdateFailure::Rejected("Downloaded installer exceeds the declared size"))
    ));
    let check = InstallerIntegrity::new(4, abc_sha256);
    assert!(matches!(
        check.finish("x"),
        Err(UpdateFailure::Rejected("Downloaded installer size does not match metadata"))
    ));
    assert_eq!(installer_file_name_text("1.2.3"), "BarePDF-Setup-x64-v1.2.3.exe");
    assert_eq!(
        partial_file_name_text("1.2.3", 42, 1_000_000_000_000, 7),
        ".BarePDF-Setup-x64-v1.2.3-42-1000000000000-7.partial"
    );
}

#[test]
fn responses_are_answered_or_followed() {
    assert!(matches!(response_step(200, 0, None, RequestTarget::Metadata), Ok(None)));
    let next = "https://release-assets.githubusercontent.com/github-production-release-asset/1/x";
    assert!(matches!(response_step(302, 1, Some(next), RequestTarget::Metadata), Ok(Some(l)) if l == next));
    assert!(response_step(302, MAX_REDIRECTS, Some(next), RequestTarget::Metadata).is_err());
    assert!(response_step(304, 0, Some(next), RequestTarget::Metadata).is_err());
}

#[test]
fn capped_body_asks_only_for_what_is_left_below_its_limit() {
    let mut body = CappedBody::new(10);
    assert_eq!(body.next_read_len(), Some(10));
    body.append(b"abcdefg");
    assert_eq!(body.next_read_len(), Some(3));
    body.append(b"hij");
    assert_eq!(body.next_read_len(), None);
    assert_eq!(body.into_bytes(), b"abcdefghij".to_vec());
    let metadata = CappedBody::new(METADATA_READ_LIMIT);
    assert_eq!(metadata.next_read_len(), Some(BODY_READ_CHUNK_BYTES));
}

#[test]
fn memory_body_yields_what_is_left_up_to_the_request() {
    let cancelled = std::sync::atomic::AtomicBool::new(false);
    let mut reader = MemoryBody::new(b"abcde".to_vec());
    let first = read_capped_body(&mut reader, 3, &cancelled, "test body read").expect("read");
    assert_eq!(first, b"abc".to_vec());
    let rest = read_capped_body(&mut reader, 10, &cancelled, "test body read").expect("read");
    assert_eq!(rest, b"de".to_vec());
}

#[test]
fn installer_file_version_must_match_the_release() {
    assert!(check_installer_version("1.2.3", [1, 2, 3, 0]).is_ok());
    assert!(matches!(
        check_installer_version("1.2.3", [1, 2, 4, 0]),
        Err(UpdateFailure::Rejected("Downloaded installer version does not match update metadata"))
    ));
    assert!(matches!(
        check_installer_version("1.2.3", [1, 2, 3, 1]),
        Err(UpdateFailure::Rejected("Downloaded installer version does not match update metadata"))
    ));
    assert!(matches!(
        check_installer_version("70000.0.0", [0, 0, 0, 0]),
        Err(UpdateFailure::Rejected("Release major version exceeds Windows limits"))
    ));
    assert!(matches!(
        check_installer_version("not a version", [0, 0, 0, 0]),
        Err(UpdateFailure::Version { operation: "Invalid release version", .. })
    ));
}

#[test]
fn update_button_installs_opens_the_release_page_or_downloads() {
    let update = VerifiedUpdate::for_test("1.2.3", "a".repeat(64), 3);

    let mut portable = UpdateController::new();
    assert!(portable.begin_check());
    portable.mark_available(update.clone());
    assert!(matches!(
        update_action(&mut portable, false),
        UpdateAction::OpenReleasePage(ref url) if url == "https://github.com/Woffluon/BarePDF/releases/tag/v1.2.3"
    ));
    assert_eq!(portable.ui_state(), UpdateUiState::Available);

    let mut installed = UpdateController::new();
    assert!(installed.begin_check());
    installed.mark_available(update.clone());
    assert!(matches!(update_action(&mut installed, true), UpdateAction::Download(_)));
    assert_eq!(installed.ui_state(), UpdateUiState::Downloading);
    assert!(matches!(update_action(&mut installed, true), UpdateAction::Nothing));

    installed.mark_downloaded("C:/setup.exe".to_string(), update);
    assert!(matches!(
        update_action(&mut installed, false),
        UpdateAction::Install { ref path, .. } if path == "C:/setup.exe"
    ));
    assert_eq!(installed.ui_state(), UpdateUiState::Installing);
}

#[test]
fn cancelling_stops_before_the_next_metadata_body_chunk() {
    let cancelled = AtomicBool::new(false);
    let mut reader = CancelOnReadBody::new(b"x".to_vec(), &cancelled);

    assert!(matches!(
        read_capped_body(&mut reader, 2, &cancelled, "test body read"),
        Err(UpdateFailure::Cancelled)
    ));
}

#[test]
fn body_read_errors_keep_the_io_source() {
    let cancelled = AtomicBool::new(false);
    let mut reader = BrokenBody::new(Vec::new(), std::io::Error::other("simulated body read failure"));
    let error = read_capped_body(&mut reader, 1, &cancelled, "test body read")
        .expect_err("failing reader must surface an error");

    assert!(matches!(
        &error,
        UpdateFailure::Io { operation: "test body read", source }
            if source.to_string() == "simulated body read failure"
    ));
}

#[test]
fn a_broken_body_yields_its_bytes_before_failing() {
    let cancelled = AtomicBool::new(false);
    let mut reader = BrokenBody::new(b"abc".to_vec(), std::io::Error::other("dropped"));
    assert_eq!(
        read_capped_body(&mut reader, 3, &cancelled, "test body read").expect("within limit"),
        b"abc".to_vec()
    );
    assert!(matches!(
        read_capped_body(&mut reader, 3, &cancelled, "test body read"),
        Err(UpdateFailure::Io { .. })
    ));
}

#[test]
fn stable_versions_compare_by_number_not_by_text() {
    let hash = "a".repeat(64);
    let newer = UpdateManifest {
        schema_version: 1,
        version: "1.10.0".to_string(),
        release_url: "https://github.com/Woffluon/BarePDF/releases/tag/v1.10.0".to_string(),
        release_notes: String::new(),
        installer: InstallerManifest {
            url: "https://github.com/Woffluon/BarePDF/releases/download/v1.10.0/BarePDF-Setup-x64-v1.10.0.exe".to_string(),
            sha256: hash,
            size: 1024,
        },
    };
    assert!(matches!(check_manifest(newer, "1.9.0"), Ok(Some(_))));
}
