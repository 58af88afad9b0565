use proposal_core::config::{read_configuration_from_file, ConfigError, Extension, FileType};
use proposal_core::helm::{
    era_is_new, era_name, era_to_string, genesis_job_completed, genesis_job_name, get_helm_status,
    get_new_era, helm_release_patch, release_removed, release_secret_name, remove_helm_release,
    removal_done, scale_sts_replica, set_validator_image_tag, testnet_chart,
    testnet_upgrade_options, upgrade_failure_message, upgrade_helm_release, upgrade_testnet,
    upgrade_validator, validator_chart, validator_count_allowed, validator_release_name,
    validator_status_file, validator_upgrade_options, EraValue, MAX_NUM_VALIDATORS,
};
use proposal_core::text::{joined, decimal, same_text};

fn strings(items: &[&str]) -> Vec<String> {
    items.iter().map(|s| s.to_string()).collect()
}

#[test]
fn extension_decides_format() {
    let yaml = Extension::Text("yaml".to_string());
    let yml = Extension::Text("yml".to_string());
    let json = Extension::Text("json".to_string());
    assert!(matches!(read_configuration_from_file(&yaml), Ok(FileType::Yaml)));
    assert!(matches!(read_configuration_from_file(&yml), Ok(FileType::Yaml)));
    assert!(matches!(read_configuration_from_file(&json), Ok(FileType::Json)));
    assert!(matches!(FileType::try_from(&json), Ok(FileType::Json)));
}

#[test]
fn extension_errors_and_messages() {
    let missing = read_configuration_from_file(&Extension::Missing).unwrap_err();
    assert!(matches!(missing, ConfigError::MissingExtension));
    assert_eq!(missing.message(), "Config file must have an extension");
    let invalid = read_configuration_from_file(&Extension::NotUnicode).unwrap_err();
    assert!(matches!(invalid, ConfigError::InvalidExtension));
    assert_eq!(invalid.message(), "Invalid extension");
    let toml = read_configuration_from_file(&Extension::Text("toml".to_string())).unwrap_err();
    assert!(matches!(&toml, ConfigError::UnsupportedExtension(e) if e == "toml"));
    assert_eq!(
        toml.message(),
        "File extension must be yaml, yml, or json, not toml"
    );
    let upper = read_configuration_from_file(&Extension::Text("YAML".to_string()));
    assert!(matches!(upper, Err(ConfigError::UnsupportedExtension(_))));
}

#[test]
fn invalid_content_messages() {
    assert_eq!(
        FileType::Yaml.invalid_content_message("/etc/node.yaml"),
        "/etc/node.yaml was not valid YAML"
    );
    assert_eq!(
        FileType::Json.invalid_content_message("node.json"),
        "node.json was not valid JSON"
    );
    assert_eq!(FileType::Json.name(), "JSON");
}

#[test]
fn decimal_numerals() {
    assert_eq!(decimal(0), "0");
    assert_eq!(decimal(7), "7");
    assert_eq!(decimal(10), "10");
    assert_eq!(decimal(1234567890), "1234567890");
    assert_eq!(decimal(u64::MAX), "18446744073709551615");
    assert_eq!(joined("ab", "cd"), "abcd");
    assert!(same_text("abc", "abc"));
    assert!(!same_text("abc", "abd"));
}

#[test]
fn image_tag_command() {
    assert_eq!(
        set_validator_image_tag("val3", "devnet_abc", "testnet-internal"),
        strings(&[
            "upgrade",
            "val3",
            "testnet-internal/aptos-validator",
            "--reuse-values",
            "--history-max",
            "2",
            "--set",
            "imageTag=devnet_abc",
        ])
    );
}

#[test]
fn upgrade_commands() {
    let options = strings(&["-f", "x.json"]);
    assert_eq!(
        upgrade_helm_release("rel", "repo/chart", &options),
        strings(&["upgrade", "rel", "repo/chart", "-f", "x.json"])
    );
    assert_eq!(
        upgrade_helm_release("rel", "repo/chart", &Vec::new()),
        strings(&["upgrade", "rel", "repo/chart"])
    );
    assert_eq!(
        upgrade_validator("val0", "repo", &options),
        strings(&["upgrade", "val0", "repo/aptos-validator", "-f", "x.json"])
    );
    assert_eq!(
        upgrade_testnet("repo", &options),
        strings(&["upgrade", "aptos", "repo/testnet", "-f", "x.json"])
    );
    assert_eq!(validator_chart("r"), "r/aptos-validator");
    assert_eq!(testnet_chart("r"), "r/testnet");
    assert_eq!(upgrade_failure_message("boom"), "Upgrade not completed: boom");
}

#[test]
fn removal_command_and_outcome() {
    assert_eq!(
        remove_helm_release("val12"),
        strings(&["uninstall", "--keep-history", "val12"])
    );
    assert!(release_removed(true, ""));
    assert!(release_removed(false, "Error: uninstall: release val1 is already deleted"));
    assert!(!release_removed(false, "Error: release: not found"));
    assert!(!release_removed(false, "already deleted".to_uppercase().as_str()));
    assert!(removal_done(true, None));
    assert!(removal_done(false, Some(true)));
    assert!(!removal_done(false, Some(false)));
    assert!(!removal_done(false, None));
}

#[test]
fn patch_status_and_scale_commands() {
    assert_eq!(release_secret_name("val1", 12), "sh.helm.release.v1.val1.v12");
    assert_eq!(
        helm_release_patch("aptos", 3),
        strings(&[
            "patch",
            "secret",
            "sh.helm.release.v1.aptos.v3",
            "--type=merge",
            "-p",
            "{\"metadata\":{\"labels\":{\"status\":\"deployed\"}}}",
        ])
    );
    assert_eq!(
        get_helm_status("aptos"),
        strings(&["status", "aptos", "-o", "json"])
    );
    assert_eq!(
        scale_sts_replica("val0-aptos-validator-validator", 0),
        strings(&["scale", "sts", "val0-aptos-validator-validator", "--replicas=0"])
    );
    assert_eq!(
        scale_sts_replica("s", 15),
        strings(&["scale", "sts", "s", "--replicas=15"])
    );
}

#[test]
fn era_upgrade_options() {
    assert_eq!(
        validator_upgrade_options("/tmp/val0_status.json", "fg9", "tag"),
        strings(&[
            "-f",
            "/tmp/val0_status.json",
            "--install",
            "--history-max",
            "2",
            "--set",
            "chain.era=fg9",
            "--set",
            "imageTag=tag",
        ])
    );
    let expected_head = [
        "-f",
        "/tmp/aptos_status.json",
        "--install",
        "--history-max",
        "2",
        "--set",
        "genesis.era=fg9",
        "--set",
        "genesis.numValidators=4",
        "--set",
        "imageTag=tag",
        "--set",
        "monitoring.prometheus.useHttps=false",
        "--set",
    ];
    let mut with_default = strings(&expected_head);
    with_default.push("genesis.moveModuleDir=/aptos-framework/move/modules".to_string());
    assert_eq!(
        testnet_upgrade_options("/tmp/aptos_status.json", "fg9", 4, "tag", None),
        with_default
    );
    let mut with_path = strings(&expected_head);
    with_path.push("genesis.moveModuleDir=/my/modules".to_string());
    assert_eq!(
        testnet_upgrade_options("/tmp/aptos_status.json", "fg9", 4, "tag", Some("/my/modules")),
        with_path
    );
}

#[test]
fn names_and_limits() {
    assert_eq!(MAX_NUM_VALIDATORS, 30);
    assert!(validator_count_allowed(0));
    assert!(validator_count_allowed(30));
    assert!(!validator_count_allowed(31));
    assert_eq!(validator_release_name(0), "val0");
    assert_eq!(validator_release_name(29), "val29");
    assert_eq!(validator_status_file(7), "val7_status.json");
    assert_eq!(genesis_job_name("fg12"), "aptos-testnet-genesis-efg12");
    assert!(genesis_job_completed(Some(1)));
    assert!(!genesis_job_completed(Some(0)));
    assert!(!genesis_job_completed(Some(2)));
    assert!(!genesis_job_completed(None));
}

#[test]
fn eras() {
    assert_eq!(era_name(0), "fg0");
    assert_eq!(era_name(u32::MAX), "fg4294967295");
    let era = get_new_era();
    assert!(era.starts_with("fg"));
    let number: u32 = era[2..].parse().unwrap();
    assert_eq!(era_name(number), era);
    assert!(era_is_new("fg1", "fg2"));
    assert!(!era_is_new("fg1", "fg1"));
    assert_eq!(
        era_to_string(&EraValue::Number("1e5".to_string())),
        Ok("1e5".to_string())
    );
    assert_eq!(
        era_to_string(&EraValue::Text("fg3".to_string())),
        Ok("fg3".to_string())
    );
    assert_eq!(
        era_to_string(&EraValue::Other("null".to_string())),
        Err("Era is not a number null".to_string())
    );
}
