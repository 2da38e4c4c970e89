use genpolicy::annotations::Annotations;
use genpolicy::encoding::{decode, encode};
use genpolicy::error::PolicyError;
use genpolicy::infra::{ConfigMapVolume, EmptyDirVolume, InfraPolicy, KataConfig, SharedFiles, Volumes};
use genpolicy::policy::{AgentPolicy, OciSpec};
use genpolicy::yaml::exec_commands_text;

#[test]
fn texts_are_encoded_in_standard_base64() {
    assert_eq!(encode(""), "");
    assert_eq!(encode("hello"), "aGVsbG8=");
    assert_eq!(encode("hello world~"), "aGVsbG8gd29ybGR+");
    assert_eq!(encode("\u{fb}\u{ff}?"), "w7vDvz8=");
    assert_eq!(decode("aGVsbG8="), Some("hello".to_string()));
    assert_eq!(decode(""), Some("".to_string()));
    assert_eq!(decode("aGVsbG8"), None);
    assert_eq!(decode("not base64!"), None);
    // Bytes that are no UTF-8 give no text.
    assert_eq!(decode("/w=="), None);
}

#[test]
fn a_policy_is_framed_and_encoded() {
    let empty = || OciSpec { process: None, mounts: Vec::new(), annotations: None, linux: None };
    let config_map = || ConfigMapVolume {
        mount_type: String::new(),
        mount_source: String::new(),
        mount_point: String::new(),
        driver: String::new(),
        fstype: String::new(),
        options: Vec::new(),
    };
    let agent = AgentPolicy {
        rules: "package agent_policy".to_string(),
        infra_policy: InfraPolicy::new(
            empty(),
            empty(),
            Volumes {
                empty_dir: EmptyDirVolume {
                    mount_type: String::new(),
                    mount_source: String::new(),
                    mount_point: String::new(),
                    driver: String::new(),
                    fstype: String::new(),
                    options: Vec::new(),
                    source: String::new(),
                },
                config_map: config_map(),
                confidential_config_map: config_map(),
            },
            SharedFiles { source_path: String::new() },
            KataConfig { confidential_guest: false },
        )
        .unwrap(),
    };
    let encoded = agent.encode_policy("{\"containers\":[]}");
    assert!(!encoded.contains(':'));
    assert_eq!(
        decode(&encoded),
        Some("package agent_policy\npolicy_data := {\"containers\":[]}".to_string())
    );
    assert_eq!(encoded, encode("package agent_policy\npolicy_data := {\"containers\":[]}"));
}

#[test]
fn allowed_commands_are_read_from_their_annotation() {
    let key = "io.katacontainers.config.agent.policyOption.execCommands";
    let mut annotations = Annotations::new();
    assert_eq!(exec_commands_text(&annotations), Ok(None));
    annotations.insert("other".to_string(), "x".to_string());
    let json = "[{\"containerName\":\"a\",\"execCommands\":[\"ls\"]}]";
    annotations.insert(key.to_string(), encode(json));
    assert_eq!(exec_commands_text(&annotations), Ok(Some(json.to_string())));
    annotations.insert(key.to_string(), "%%%".to_string());
    assert_eq!(exec_commands_text(&annotations), Err(PolicyError::MalformedField(key.to_string())));
}
