use infra::cli::{rm_question, RmArgs, RmTarget, ServiceAction, ServiceArgs, ServiceArgsError};
use infra::config::{ProjectConfig, ServiceConfig};
use infra::runtime::{DockerRuntime, Runtime, RuntimeError, RuntimeStep};

fn config() -> ProjectConfig {
    ProjectConfig {
        version: 1,
        project: "market".into(),
        runtime: "docker".into(),
        service: ServiceConfig {
            name: "api".into(),
            source: ".".into(),
            build_file: "Dockerfile".into(),
            port: 8080,
            health_path: "/health".into(),
            environment: Some(".env".into()),
        },
        extensions: String::new(),
    }
}

fn docker(step: &RuntimeStep) -> (Vec<&str>, bool) {
    match step {
        RuntimeStep::Docker { args, required } => (args.iter().map(|a| a.as_str()).collect(), *required),
        RuntimeStep::Print(_) => panic!("expected a docker step"),
    }
}

#[test]
fn apply_builds_then_recreates_with_the_env_file() {
    let steps = DockerRuntime.apply(&config()).unwrap();
    assert_eq!(steps.len(), 5);
    assert!(matches!(&steps[0], RuntimeStep::Print(t) if t == "applying configuration..."));
    assert_eq!(docker(&steps[1]), (vec!["build", "-f", "Dockerfile", "-t", "market-api:latest", "."], true));
    assert_eq!(docker(&steps[2]), (vec!["rm", "-f", "market-api"], false));
    assert_eq!(
        docker(&steps[3]),
        (vec!["run", "-d", "--name", "market-api", "--env-file", ".env", "-p", "8080:8080", "market-api:latest"], true)
    );
    assert!(matches!(&steps[4], RuntimeStep::Print(t) if t == "configuration applied"));
}

#[test]
fn apply_without_environment_and_other_runtimes() {
    let mut c = config();
    c.service.environment = None;
    let steps = DockerRuntime.apply(&c).unwrap();
    assert_eq!(docker(&steps[3]).0, vec!["run", "-d", "--name", "market-api", "-p", "8080:8080", "market-api:latest"]);
    c.runtime = "podman".into();
    assert_eq!(
        DockerRuntime.apply(&c).err(),
        Some(RuntimeError::UnsupportedRuntime { runtime: "podman".into() })
    );
}

#[test]
fn service_commands() {
    let r = DockerRuntime;
    let c = config();
    assert_eq!(docker(&r.logs(&c, "api").unwrap()[0]), (vec!["logs", "market-api"], true));
    assert_eq!(docker(&r.stop_service(&c, "api").unwrap()[0]), (vec!["stop", "market-api"], true));
    assert_eq!(docker(&r.service_status(&c, "api").unwrap()[0]).0, vec!["ps", "-a", "--filter", "name=^market-api$"]);
    let restart = r.restart(&c, "api").unwrap();
    assert_eq!(docker(&restart[0]), (vec!["rm", "-f", "market-api"], false));
    assert_eq!(docker(&restart[1]).0[0], "run");
    assert_eq!(r.logs(&c, "db").err(), Some(RuntimeError::UnknownService { service: "db".into() }));
    let stop = r.stop_project(&c).unwrap();
    assert_eq!(docker(&stop[0]), (vec!["stop", "market-api"], true));
    let status = r.status(&c).unwrap();
    assert!(matches!(&status[0], RuntimeStep::Print(t) if t == "project  market"));
    assert_eq!(DockerRuntime::container_name(&c, "api"), "market-api");
}

#[test]
fn rm_forms_are_distinct() {
    let c = config();
    let none = RmArgs { service: None, all: false, path: None };
    let all = RmArgs { service: None, all: true, path: None };
    let one = RmArgs { service: Some("api".into()), all: false, path: None };
    assert_eq!(none.target(), RmTarget::Configuration);
    assert_eq!(all.target(), RmTarget::AllServices);
    assert_eq!(one.target(), RmTarget::Service("api".into()));
    assert_eq!(rm_question(&none.target(), "./.infra", "market"), "deinitialize infra at ./.infra?");
    assert_eq!(rm_question(&all.target(), "./.infra", "market"), "remove all services from project market?");
    assert_eq!(rm_question(&one.target(), "./.infra", "market"), "remove service api?");
    assert_eq!(docker(&DockerRuntime.remove_all(&c)[0]), (vec!["rm", "-f", "market-api"], true));
    assert_eq!(docker(&DockerRuntime.remove_service(&c, "api").unwrap()[0]).0, vec!["rm", "-f", "market-api"]);
    assert!(DockerRuntime.remove_service(&c, "db").is_err());
}

#[test]
fn service_arguments() {
    let a = ServiceArgs::try_from(vec!["api".into()]).unwrap();
    assert_eq!(a.name, "api");
    assert_eq!(a.action, None);
    let a = ServiceArgs::try_from(vec!["api".into(), "restart".into()]).unwrap();
    assert_eq!(a.action, Some(ServiceAction::Restart));
    assert_eq!(ServiceArgs::try_from(Vec::new()).err(), Some(ServiceArgsError::MissingName));
    assert_eq!(
        ServiceArgs::try_from(vec!["api".into(), "dance".into()]).err(),
        Some(ServiceArgsError::UnknownAction { action: "dance".into() })
    );
    assert_eq!(
        ServiceArgs::try_from(vec!["api".into(), "logs".into(), "x".into()]).err(),
        Some(ServiceArgsError::TooManyArguments)
    );
}
