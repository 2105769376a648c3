use infra::agent_config::{parse_document, AgentConfig, DockerInput, InfraBotOutput};
use infra::agent_error::{AgentConfigError, UrlSetting};
use infra::events::{
    check_credential, event_request, health_response, plan_poll, state_after_poll, transitions,
    CredentialError, CredentialFile, Delivery, PollError, PollPlan,
};
use infra::address::{ipv6_of, is_socket_address};
use infra::network::{is_private_host, validate_private_or_https_url};
use infra::observe::{health_from_status, normalized_status, observe, record_listing, ContainerSummary, ObserveError};
use infra::snapshot::{ObservedContainer, Snapshot};

fn document() -> &'static str {
    r#"
infra 1

project "infra-agent" {
    runtime = "docker"
    service "agent" {
        source = "."
        build = "Dockerfile.agent"
        expose = 9090
        health = "/health"
    }
}

agent {
    poll_interval_seconds = 15
    health_bind = "0.0.0.0:9090"
    state_file = "/var/lib/infra/state.json"

    input "market-docker" {
        driver = "docker"
        addresses = ["http://docker-api:2375"]
        projects = ["zero-x-da-market-development", "zero-x-da-market-bot-development"]
        services = ["api", "bot"]
        fields = ["input", "docker_address", "container", "project", "service", "image", "state", "health"]
    }

    output "infra_services_bot" {
        driver = "infrabot"
        endpoint = "http://infra-bot:8787"
        source = "vps-spaceship-01"
        credential = env("INFRA_CREDENTIALS_FILE")
        events = ["service.failed", "service.recovered", "service.started", "service.removed"]
        fields = ["kind", "project", "service", "container", "image", "previous_status", "status"]
    }
}
"#
}

fn credential_env(value: &str) -> Vec<(String, String)> {
    vec![("INFRA_CREDENTIALS_FILE".to_owned(), value.to_owned())]
}

fn observed(status: &str) -> ObservedContainer {
    ObservedContainer {
        input: "docker".into(),
        docker_address: "http://docker-api:2375".into(),
        container: "api".into(),
        container_id: "id".into(),
        project: "market".into(),
        service: "api".into(),
        image: "market:latest".into(),
        state: if status == "healthy" { "running" } else { "exited" }.into(),
        health: if status == "healthy" { "healthy" } else { "none" }.into(),
        status: status.into(),
    }
}

fn snapshot(entries: Vec<(&str, ObservedContainer)>) -> Snapshot {
    let mut s = Snapshot::new();
    for (k, v) in entries {
        assert!(s.insert(k.to_owned(), v));
    }
    s
}

fn agent_config() -> AgentConfig {
    parse_document(document(), &credential_env("/run/secrets/infrabot.json")).unwrap()
}

#[test]
fn parses_input_and_output_contracts() {
    let config = parse_document(document(), &credential_env("/run/secrets/infrabot.json")).unwrap();
    assert_eq!(config.inputs.len(), 1);
    assert_eq!(config.inputs[0].id, "market-docker");
    assert_eq!(config.output.id, "infra_services_bot");
    assert_eq!(config.output.source, "vps-spaceship-01");
}

#[test]
fn rejects_public_plain_http() {
    let input = document().replace("http://docker-api:2375", "http://docker.example:2375");
    assert!(parse_document(&input, &credential_env("/run/credential.json")).is_err());
}

#[test]
fn detects_failure_and_recovery() {
    let healthy = observed("healthy");
    let failed = observed("failed");
    let previous = snapshot(vec![("docker:id", healthy.clone())]);
    let current = snapshot(vec![("docker:id", failed.clone())]);
    assert_eq!(transitions(&previous, &current)[0].0, "service.failed");

    let previous = snapshot(vec![("docker:id", failed)]);
    let current = snapshot(vec![("docker:id", healthy)]);
    assert_eq!(transitions(&previous, &current)[0].0, "service.recovered");
}

#[test]
fn parsed_agent_settings() {
    let config = agent_config();
    assert_eq!(config.poll_interval_seconds, 15);
    assert_eq!(config.health_bind, "0.0.0.0:9090");
    assert_eq!(config.state_file, "/var/lib/infra/state.json");
    assert_eq!(config.output.credential, "/run/secrets/infrabot.json");
    assert_eq!(config.output.endpoint, "http://infra-bot:8787");
    assert_eq!(config.inputs[0].addresses, vec!["http://docker-api:2375".to_owned()]);
    assert_eq!(config.inputs[0].services, vec!["api".to_owned(), "bot".to_owned()]);
    for address in &config.inputs[0].addresses {
        assert_eq!(validate_private_or_https_url(address, UrlSetting::InputAddress), Ok(()));
    }
}

#[test]
fn agent_document_errors() {
    assert_eq!(
        parse_document("infra 1\n", &credential_env("/c.json")).err(),
        Some(AgentConfigError::MissingAgentBlock)
    );
    let missing = parse_document(document(), &Vec::new()).err().unwrap();
    assert!(matches!(missing, AgentConfigError::MissingEnvironmentValue { .. }));
    let relative = parse_document(document(), &credential_env("secrets/c.json")).err();
    assert_eq!(relative, Some(AgentConfigError::CredentialNotAbsolute));
    let zero = document().replace("poll_interval_seconds = 15", "poll_interval_seconds = 0");
    assert_eq!(
        parse_document(&zero, &credential_env("/c.json")).err(),
        Some(AgentConfigError::PollIntervalOutOfRange)
    );
}

#[test]
fn private_or_https_urls() {
    assert_eq!(validate_private_or_https_url("https://bot.example", UrlSetting::OutputEndpoint), Ok(()));
    assert_eq!(validate_private_or_https_url("http://10.0.0.2:2375", UrlSetting::InputAddress), Ok(()));
    assert_eq!(validate_private_or_https_url("http://docker-api:2375", UrlSetting::InputAddress), Ok(()));
    assert_eq!(
        validate_private_or_https_url("http://8.8.8.8:2375", UrlSetting::InputAddress),
        Err(AgentConfigError::UrlNotPrivate { setting: UrlSetting::InputAddress })
    );
    assert_eq!(
        validate_private_or_https_url("not a url", UrlSetting::OutputEndpoint),
        Err(AgentConfigError::InvalidUrl { setting: UrlSetting::OutputEndpoint })
    );
    assert_eq!(
        validate_private_or_https_url("https://u:p@bot.example", UrlSetting::OutputEndpoint),
        Err(AgentConfigError::UrlHasCredentials { setting: UrlSetting::OutputEndpoint })
    );
}

#[test]
fn unchanged_snapshot_reports_nothing() {
    let s = snapshot(vec![("docker:a", observed("healthy")), ("docker:b", observed("failed"))]);
    assert!(transitions(&s, &s).is_empty());
}

#[test]
fn new_and_removed_containers() {
    let previous = snapshot(vec![("docker:old", observed("healthy"))]);
    let current = snapshot(vec![("docker:new", observed("healthy")), ("docker:sick", observed("failed"))]);
    let events = transitions(&previous, &current);
    let kinds: Vec<&str> = events.iter().map(|e| e.0.as_str()).collect();
    assert_eq!(kinds, vec!["service.started", "service.failed", "service.removed"]);
    assert!(events[2].2.is_none());
    assert!(events[0].1.is_none());
}

#[test]
fn status_changes_other_than_recovery() {
    let previous = snapshot(vec![("docker:id", observed("unknown"))]);
    let current = snapshot(vec![("docker:id", observed("healthy"))]);
    assert_eq!(transitions(&previous, &current)[0].0, "service.started");
    let previous = snapshot(vec![("docker:id", observed("healthy"))]);
    let current = snapshot(vec![("docker:id", observed("unknown"))]);
    assert_eq!(transitions(&previous, &current)[0].0, "service.changed");
}

#[test]
fn first_poll_is_a_baseline() {
    let config = agent_config();
    let current = snapshot(vec![("market-docker:id", observed("healthy"))]);
    assert!(matches!(plan_poll(&config, &Snapshot::new(), &current), PollPlan::Baseline));
}

#[test]
fn later_polls_deliver_subscribed_events_with_declared_fields() {
    let config = agent_config();
    let mut before = observed("healthy");
    before.input = "market-docker".into();
    let mut after = observed("failed");
    after.input = "market-docker".into();
    let previous = snapshot(vec![("market-docker:id", before)]);
    let current = snapshot(vec![("market-docker:id", after)]);
    let PollPlan::Deliver(plan) = plan_poll(&config, &previous, &current) else {
        panic!("expected deliveries");
    };
    assert_eq!(plan.len(), 1);
    let Delivery::Send(request) = &plan[0] else {
        panic!("expected a request");
    };
    assert_eq!(request.output, "infra_services_bot");
    assert_eq!(request.kind, "service.failed");
    assert_eq!(request.project, "market");
    assert_eq!(request.service.as_deref(), Some("api"));
    assert_eq!(request.status.as_deref(), Some("failed"));
    assert_eq!(request.message, "api: healthy -> failed");
    let names: Vec<&str> = request.fields.iter().map(|f| f.0.as_str()).collect();
    assert_eq!(names, vec!["kind", "project", "service", "container", "image", "previous_status", "status"]);
    assert_eq!(request.fields[5].1, "healthy");
}

#[test]
fn unknown_input_stops_the_plan() {
    let config = agent_config();
    let previous = snapshot(vec![("other:id", observed("healthy"))]);
    let current = snapshot(vec![("other:id", observed("failed"))]);
    let PollPlan::Deliver(plan) = plan_poll(&config, &previous, &current) else {
        panic!("expected deliveries");
    };
    assert!(matches!(plan[0], Delivery::Abort(PollError::InputNotConfigured)));
}

#[test]
fn undeclared_input_fields_never_reach_an_event() {
    let output = InfraBotOutput {
        id: "bot".into(),
        endpoint: "https://bot.example".into(),
        source: "src".into(),
        credential: "/c.json".into(),
        events: vec!["service.failed".into()],
        fields: vec!["image".into(), "container_id".into(), "status".into()],
    };
    let o = observed("failed");
    let request = event_request(&output, "service.failed", None, Some(&o), &vec!["image".into()]).unwrap();
    let names: Vec<&str> = request.fields.iter().map(|f| f.0.as_str()).collect();
    assert_eq!(names, vec!["image", "status"]);
    assert_eq!(request.project, "docker");
    assert_eq!(request.service.as_deref(), Some("docker"));
    assert_eq!(request.message, "docker: absent -> failed");

    let mut other = observed("failed");
    other.project = "elsewhere".into();
    other.service = "worker".into();
    other.container = "worker-1".into();
    other.container_id = "other-id".into();
    other.state = "dead".into();
    let second = event_request(&output, "service.failed", None, Some(&other), &vec!["image".into()]).unwrap();
    assert_eq!(second.project, request.project);
    assert_eq!(second.service, request.service);
    assert_eq!(second.message, request.message);
    assert_eq!(second.fields, request.fields);

    let declared = vec!["container".to_owned()];
    let named = event_request(&output, "service.failed", None, Some(&o), &declared).unwrap();
    assert_eq!(named.message, "api: absent -> failed");
    assert_eq!(
        event_request(&output, "service.failed", None, None, &Vec::new()).err(),
        Some(PollError::NoState)
    );
}

#[test]
fn failed_poll_keeps_the_stored_snapshot() {
    let previous = snapshot(vec![("docker:id", observed("healthy"))]);
    let current = snapshot(vec![("docker:id", observed("failed"))]);
    let kept = state_after_poll(previous, current, false);
    assert_eq!(kept.get(&"docker:id".chars().collect()).unwrap().status, "healthy");
    let previous = snapshot(vec![("docker:id", observed("healthy"))]);
    let current = snapshot(vec![("docker:id", observed("failed"))]);
    let moved = state_after_poll(previous, current, true);
    assert_eq!(moved.get(&"docker:id".chars().collect()).unwrap().status, "failed");
}

fn credential() -> CredentialFile {
    CredentialFile {
        version: 1,
        endpoint: "https://bot.example".into(),
        source: "vps".into(),
        token_type: "Bearer".into(),
        access_token: "token".into(),
        expires_at: 100,
    }
}

#[test]
fn credential_checks() {
    assert_eq!(check_credential(&credential(), "vps", 99), Ok(()));
    assert_eq!(check_credential(&credential(), "vps", 100), Err(CredentialError::Expired));
    assert_eq!(check_credential(&credential(), "other", 1), Err(CredentialError::SourceMismatch));
    let mut c = credential();
    c.endpoint = String::new();
    assert_eq!(check_credential(&c, "vps", 1), Err(CredentialError::EmptyEndpoint));
    let mut c = credential();
    c.token_type = "Basic".into();
    assert_eq!(check_credential(&c, "vps", 1), Err(CredentialError::SourceMismatch));
}

#[test]
fn health_endpoint_answers() {
    assert_eq!(health_response(b"GET /health HTTP/1.1\r\n"), ("200 OK", "ok"));
    assert_eq!(health_response(b"GET /healthz HTTP/1.1\r\n"), ("404 Not Found", "not found"));
    assert_eq!(health_response(b""), ("404 Not Found", "not found"));
}

#[test]
fn docker_status_is_normalized() {
    assert_eq!(health_from_status("Up 2 minutes (healthy)"), "healthy");
    assert_eq!(health_from_status("Up 2 minutes (unhealthy)"), "unhealthy");
    assert_eq!(health_from_status("Up 1 second (health: starting)"), "starting");
    assert_eq!(health_from_status("Exited (1) 3 minutes ago"), "none");
    assert_eq!(normalized_status("running", "healthy"), "healthy");
    assert_eq!(normalized_status("running", "none"), "healthy");
    assert_eq!(normalized_status("running", "unhealthy"), "failed");
    assert_eq!(normalized_status("dead", "none"), "failed");
    assert_eq!(normalized_status("running", "starting"), "unknown");
}

fn summary(id: &str, project: &str, service: &str) -> ContainerSummary {
    ContainerSummary {
        id: id.into(),
        names: vec!["/market-api".into()],
        image: "market:latest".into(),
        state: "running".into(),
        status: "Up 5 minutes (healthy)".into(),
        labels: vec![
            ("com.docker.compose.project".into(), project.into()),
            ("com.docker.compose.service".into(), service.into()),
        ],
    }
}

fn input() -> DockerInput {
    DockerInput {
        id: "market-docker".into(),
        addresses: vec!["http://docker-api:2375".into()],
        projects: vec!["market".into()],
        services: Vec::new(),
        fields: vec!["image".into()],
    }
}

#[test]
fn observations_follow_the_input_filters() {
    let (key, o) = observe(&input(), "http://docker-api:2375", &summary("abc", "market", "api")).unwrap();
    assert_eq!(key, "market-docker:abc");
    assert_eq!(o.container, "market-api");
    assert_eq!(o.status, "healthy");
    assert_eq!(o.health, "healthy");
    assert!(observe(&input(), "http://docker-api:2375", &summary("abc", "other", "api")).is_none());
    let mut nameless = summary("0123456789abcdef", "market", "api");
    nameless.names = Vec::new();
    assert_eq!(observe(&input(), "a", &nameless).unwrap().1.container, "0123456789ab");
}

#[test]
fn duplicate_containers_are_rejected() {
    let mut s = Snapshot::new();
    let listing = vec![summary("abc", "market", "api"), summary("def", "other", "api")];
    assert!(record_listing(&mut s, &input(), "http://docker-api:2375", &listing).is_ok());
    assert_eq!(s.len(), 1);
    let again = record_listing(&mut s, &input(), "http://docker-api:2375", &listing);
    assert!(matches!(again, Err(ObserveError::DuplicateContainer { ref key }) if key == "market-docker:abc"));
    assert_eq!(s.len(), 1);
}

fn chars(s: &str) -> Vec<char> {
    s.chars().collect()
}

#[test]
fn health_bind_must_be_a_socket_address() {
    for ok in ["0.0.0.0:9090", "127.0.0.1:080", "[::1]:9090", "[fe80::1%2]:80", "[::ffff:10.0.0.1]:1"] {
        assert!(is_socket_address(&chars(ok)), "{ok}");
    }
    for bad in ["localhost:9090", "1.2.3.4", "[::1]", "1.2.3.4:70000", "01.2.3.4:80", "[::1]:", "[1::2::3]:80", "1.2.3.4:+80"] {
        assert!(!is_socket_address(&chars(bad)), "{bad}");
    }
    let text = document().replace("health_bind = \"0.0.0.0:9090\"", "health_bind = \"localhost:9090\"");
    assert_eq!(
        parse_document(&text, &credential_env("/c.json")).err(),
        Some(AgentConfigError::InvalidHealthBind)
    );
}

#[test]
fn ipv6_groups_and_private_hosts() {
    assert_eq!(ipv6_of(&chars("::1")).unwrap(), vec![0, 0, 0, 0, 0, 0, 0, 1]);
    assert_eq!(ipv6_of(&chars("fe80::1:2")).unwrap(), vec![0xfe80, 0, 0, 0, 0, 0, 1, 2]);
    assert_eq!(ipv6_of(&chars("::ffff:1.2.3.4")).unwrap(), vec![0, 0, 0, 0, 0, 0xffff, 0x102, 0x304]);
    assert_eq!(ipv6_of(&chars("1:2:3:4:5:6:7:8")).unwrap(), vec![1, 2, 3, 4, 5, 6, 7, 8]);
    assert!(ipv6_of(&chars("1:2:3:4:5:6:7:8:9")).is_none());
    assert!(ipv6_of(&chars("1.2.3.4::")).is_none());
    assert!(ipv6_of(&chars("12345::")).is_none());
    assert!(is_private_host(&chars("fc00::1.2.3.4")));
    assert!(is_private_host(&chars("fe80::10.0.0.1")));
    assert!(is_private_host(&chars("::0.0.0.1")));
    assert!(!is_private_host(&chars("::ffff:8.8.8.8")));
    assert!(!is_private_host(&chars("8.8.8.8")));
    assert!(is_private_host(&chars("10.1.2.3")));
}
