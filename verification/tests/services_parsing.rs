use m87_client::services::{
    parse_containers, parse_running_for, parse_systemd_services, ContainerJson, ServiceKind,
};

#[test]
fn test_parse_running_for_seconds() {
    assert_eq!(parse_running_for(&Some("30 seconds".to_string())), 30);
}

#[test]
fn test_parse_running_for_second_singular() {
    assert_eq!(parse_running_for(&Some("1 second".to_string())), 1);
}

#[test]
fn test_parse_running_for_minutes() {
    assert_eq!(parse_running_for(&Some("5 minutes".to_string())), 300);
}

#[test]
fn test_parse_running_for_minute_singular() {
    assert_eq!(parse_running_for(&Some("1 minute".to_string())), 60);
}

#[test]
fn test_parse_running_for_hours() {
    assert_eq!(parse_running_for(&Some("2 hours".to_string())), 7200);
}

#[test]
fn test_parse_running_for_hour_singular() {
    assert_eq!(parse_running_for(&Some("1 hour".to_string())), 3600);
}

#[test]
fn test_parse_running_for_days() {
    assert_eq!(parse_running_for(&Some("3 days".to_string())), 259200);
}

#[test]
fn test_parse_running_for_day_singular() {
    assert_eq!(parse_running_for(&Some("1 day".to_string())), 86400);
}

#[test]
fn test_parse_running_for_none() {
    assert_eq!(parse_running_for(&None), 0);
}

#[test]
fn test_parse_running_for_invalid_unit() {
    assert_eq!(parse_running_for(&Some("5 weeks".to_string())), 0);
}

#[test]
fn test_parse_running_for_invalid_number() {
    assert_eq!(parse_running_for(&Some("abc hours".to_string())), 0);
}

#[test]
fn test_parse_running_for_empty_string() {
    assert_eq!(parse_running_for(&Some("".to_string())), 0);
}

#[test]
fn parse_running_for_ignores_extra_words_and_spacing() {
    assert_eq!(parse_running_for(&Some("  4   hours ago".to_string())), 14400);
    assert_eq!(parse_running_for(&Some("+2 minutes".to_string())), 120);
    assert_eq!(parse_running_for(&Some("7".to_string())), 0);
}

// The agent parses each line of `docker ps` into a container record; these
// helpers do the same for the test inputs, with `serde_json::Value`.
fn record_of(line: &str) -> Option<ContainerJson> {
    let v: serde_json::Value = serde_json::from_str(line).ok()?;
    let obj = v.as_object()?;
    let names = match obj.get("Names") {
        None | Some(serde_json::Value::Null) => None,
        Some(serde_json::Value::Array(a)) => {
            let mut out = Vec::new();
            for n in a {
                out.push(n.as_str()?.to_string());
            }
            Some(out)
        }
        Some(_) => return None,
    };
    let text = |key: &str| -> Result<Option<String>, ()> {
        match obj.get(key) {
            None | Some(serde_json::Value::Null) => Ok(None),
            Some(serde_json::Value::String(s)) => Ok(Some(s.clone())),
            Some(_) => Err(()),
        }
    };
    let state = text("State").ok()?;
    let running_for = text("RunningFor").ok()?;
    let restart_count = match obj.get("RestartCount") {
        None | Some(serde_json::Value::Null) => None,
        Some(n) => Some(u32::try_from(n.as_u64()?).ok()?),
    };
    Some(ContainerJson {
        names,
        state,
        running_for,
        restart_count,
    })
}

fn containers(output: &str, kind: ServiceKind) -> Vec<m87_client::services::ServiceInfo> {
    parse_containers(output.lines().map(record_of).collect(), kind)
}

#[test]
fn test_parse_containers_empty() {
    let result = containers("", ServiceKind::Docker);
    assert!(result.is_empty());
}

#[test]
fn test_parse_containers_single() {
    let json = r#"{"Names":["my-container"],"State":"running","RunningFor":"2 hours","RestartCount":0}"#;
    let result = containers(json, ServiceKind::Docker);
    assert_eq!(result.len(), 1);
    assert_eq!(result[0].name, "my-container");
    assert_eq!(result[0].status, "running");
    assert_eq!(result[0].uptime_secs, 7200);
    assert_eq!(result[0].restart_count, 0);
}

#[test]
fn test_parse_containers_multiple() {
    let json = r#"{"Names":["container1"],"State":"running","RunningFor":"1 hour","RestartCount":0}
{"Names":["container2"],"State":"exited","RunningFor":"30 minutes","RestartCount":2}"#;
    let result = containers(json, ServiceKind::Docker);
    assert_eq!(result.len(), 2);
    assert_eq!(result[0].name, "container1");
    assert_eq!(result[1].name, "container2");
    assert_eq!(result[1].restart_count, 2);
}

#[test]
fn test_parse_containers_missing_optional_fields() {
    let json = r#"{"Names":null,"State":null,"RunningFor":null,"RestartCount":null}"#;
    let result = containers(json, ServiceKind::Docker);
    assert_eq!(result.len(), 1);
    assert_eq!(result[0].name, "");
    assert_eq!(result[0].status, "unknown");
    assert_eq!(result[0].uptime_secs, 0);
    assert_eq!(result[0].restart_count, 0);
}

#[test]
fn test_parse_containers_invalid_json_line_skipped() {
    let json = "not valid json\n{\"Names\":[\"valid\"],\"State\":\"running\"}";
    let result = containers(json, ServiceKind::Docker);
    assert_eq!(result.len(), 1);
    assert_eq!(result[0].name, "valid");
}

#[test]
fn test_parse_systemd_services_empty() {
    let result = parse_systemd_services("");
    assert!(result.is_empty());
}

#[test]
fn test_parse_systemd_services_single_running() {
    let output = "ssh.service loaded active running OpenSSH server daemon";
    let result = parse_systemd_services(output);
    assert_eq!(result.len(), 1);
    assert_eq!(result[0].name, "ssh.service");
    assert_eq!(result[0].status, "running");
    assert_eq!(result[0].uptime_secs, 0);
    assert_eq!(result[0].restart_count, 0);
    assert!(matches!(result[0].kind, ServiceKind::Systemd));
}

#[test]
fn test_parse_systemd_services_single_exited() {
    let output = "docker.service loaded active exited Docker Application Container Engine";
    let result = parse_systemd_services(output);
    assert_eq!(result.len(), 1);
    assert_eq!(result[0].name, "docker.service");
    assert_eq!(result[0].status, "exited");
}

#[test]
fn test_parse_systemd_services_multiple() {
    let output = "ssh.service loaded active running OpenSSH server daemon
nginx.service loaded active running A high performance web server
cron.service loaded active running Regular background program processing daemon";
    let result = parse_systemd_services(output);
    assert_eq!(result.len(), 3);
    assert_eq!(result[0].name, "ssh.service");
    assert_eq!(result[1].name, "nginx.service");
    assert_eq!(result[2].name, "cron.service");
}

#[test]
fn test_parse_systemd_services_short_line_skipped() {
    let output = "too short
ssh.service loaded active running OpenSSH server daemon";
    let result = parse_systemd_services(output);
    assert_eq!(result.len(), 1);
    assert_eq!(result[0].name, "ssh.service");
}

#[test]
fn test_parse_systemd_services_mixed_states() {
    let output = "active.service loaded active running Running service
failed.service loaded failed failed Failed service
inactive.service loaded inactive dead Inactive service";
    let result = parse_systemd_services(output);
    assert_eq!(result.len(), 3);
    assert_eq!(result[0].status, "running");
    assert_eq!(result[1].status, "failed");
    assert_eq!(result[2].status, "dead");
}

#[test]
fn default_service_kind_is_other() {
    assert_eq!(ServiceKind::default_kind(), ServiceKind::Other);
}
