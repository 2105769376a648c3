use infra::config::{
    parse_generated_config, split_core_and_extensions, ConfigError, ConfigPath, ProjectConfig,
    ServiceConfig,
};
use infra::wizard::{answer_or_default, yes_no_answer};

fn sample_config() -> ProjectConfig {
    ProjectConfig {
        version: 1,
        project: "market".into(),
        runtime: "docker".into(),
        service: ServiceConfig {
            name: "api".into(),
            source: ".".into(),
            build_file: "Dockerfile".into(),
            port: 8080,
            health_path: "/health".into(),
            environment: Some(".env".into()),
        },
        extensions: String::new(),
    }
}

#[test]
fn directory_paths_resolve_to_dot_infra() {
    assert_eq!(
        ConfigPath::resolve(Some("/srv/app")).unwrap().as_ref(),
        "/srv/app/.infra"
    );
}

#[test]
fn explicit_infra_filename_is_preserved() {
    assert_eq!(
        ConfigPath::resolve(Some("prod.infra")).unwrap().as_ref(),
        "prod.infra"
    );
}

#[test]
fn generated_config_round_trips() {
    let config = sample_config();
    assert_eq!(parse_generated_config(&config.render()).unwrap(), config);
}

#[test]
fn application_extensions_round_trip() {
    let mut config = sample_config();
    config.extensions = "infrabot {\n    public_url = \"https://bot.example\"\n}".into();
    assert_eq!(parse_generated_config(&config.render()).unwrap(), config);
}

#[test]
fn values_preserve_case_but_choices_are_case_insensitive() {
    assert_eq!(answer_or_default("Dockerfile\n", "Containerfile"), "Dockerfile");
    assert_eq!(yes_no_answer("Y\n", false), Some(true));
}

#[test]
fn conf_without_path_and_with_dot_target_the_same_file() {
    assert_eq!(ConfigPath::resolve(None).unwrap().as_ref(), "./.infra");
    assert_eq!(ConfigPath::resolve(Some(".")).unwrap().as_ref(), "./.infra");
    assert_eq!(ConfigPath::default().as_ref(), "./.infra");
}

#[test]
fn dot_infra_names_and_trailing_slashes() {
    assert_eq!(ConfigPath::resolve(Some("/srv/app/")).unwrap().as_ref(), "/srv/app/.infra");
    assert_eq!(ConfigPath::resolve(Some("conf/.infra")).unwrap().as_ref(), "conf/.infra");
    assert_eq!(ConfigPath::resolve(Some(".infra")).unwrap().display(), ".infra");
    assert_eq!(ConfigPath::resolve(Some("app.conf")).unwrap().as_ref(), "app.conf/.infra");
}

#[test]
fn render_writes_the_documented_layout() {
    let expected = "infra 1\n\nproject \"market\" {\n    runtime = \"docker\"\n\n    service \"api\" {\n        source = \".\"\n        build = \"Dockerfile\"\n        expose = 8080\n        health = \"/health\"\n        environment = \".env\"\n    }\n}\n";
    assert_eq!(sample_config().render(), expected);
}

#[test]
fn render_without_environment_and_with_padded_extensions() {
    let mut config = sample_config();
    config.service.environment = None;
    config.extensions = "\n\n  agent {\n}\n  ".into();
    let text = config.render();
    assert!(!text.contains("environment"));
    assert!(text.ends_with("    }\n}\n\nagent {\n}\n"));
    let back = parse_generated_config(&text).unwrap();
    assert_eq!(back.extensions, "agent {\n}");
    assert_eq!(back.service.environment, None);
}

#[test]
fn write_preserves_existing_extensions() {
    let mut existing = sample_config();
    existing.extensions = "infrabot {\n    public_url = \"https://bot.example\"\n}".into();
    let old_text = existing.render();
    let mut replacement = sample_config();
    replacement.project = "renamed".into();
    let written = replacement.replacement_text(Some(&old_text)).unwrap();
    let read = parse_generated_config(&written).unwrap();
    assert_eq!(read.project, "renamed");
    assert_eq!(read.extensions, existing.extensions);
}

#[test]
fn replacement_keeps_own_extensions_and_needs_no_file() {
    let mut config = sample_config();
    config.extensions = "mine {\n}".into();
    let other = sample_config();
    let mut other_with = other.clone();
    other_with.extensions = "theirs {\n}".into();
    let text = config.replacement_text(Some(&other_with.render())).unwrap();
    assert_eq!(parse_generated_config(&text).unwrap().extensions, "mine {\n}");
    assert_eq!(other.replacement_text(None).unwrap(), other.render());
    assert_eq!(
        other.replacement_text(Some("no core here")),
        Err(ConfigError::MissingProjectBlock)
    );
}

#[test]
fn split_keeps_braces_inside_strings() {
    let input = "infra 1\nproject \"p\" {\n  runtime = \"}{\"\n}\n\n tail \n";
    let (core, ext) = split_core_and_extensions(input).unwrap();
    assert_eq!(core, "infra 1\nproject \"p\" {\n  runtime = \"}{\"\n}");
    assert_eq!(ext, "tail");
}

#[test]
fn split_errors() {
    assert_eq!(split_core_and_extensions("infra 1\n"), Err(ConfigError::MissingProjectBlock));
    assert_eq!(
        split_core_and_extensions("project \"p\" \n"),
        Err(ConfigError::ProjectBlockWithoutBrace)
    );
    assert_eq!(
        split_core_and_extensions("project \"p\" {\n"),
        Err(ConfigError::ProjectBlockNotClosed)
    );
    assert_eq!(
        split_core_and_extensions("project \"p\" {\n}}"),
        Ok(("project \"p\" {\n}".to_owned(), "}".to_owned()))
    );
}

#[test]
fn parse_errors_name_the_missing_or_invalid_field() {
    let text = sample_config().render();
    assert_eq!(
        parse_generated_config(&text.replace("infra 1", "infra 300")),
        Err(ConfigError::InvalidVersion)
    );
    assert_eq!(
        parse_generated_config(&text.replace("expose = 8080", "expose = 70000")),
        Err(ConfigError::InvalidPort)
    );
    assert_eq!(
        parse_generated_config(&text.replace("infra 1\n", "")),
        Err(ConfigError::MissingVersion)
    );
    assert_eq!(
        parse_generated_config(&text.replace("    runtime = \"docker\"\n", "")),
        Err(ConfigError::MissingRuntime)
    );
    assert_eq!(
        parse_generated_config(&text.replace("        source = \".\"\n", "")),
        Err(ConfigError::MissingSource)
    );
    assert_eq!(
        parse_generated_config(&text.replace("        build = \"Dockerfile\"\n", "")),
        Err(ConfigError::MissingBuildFile)
    );
    assert_eq!(
        parse_generated_config(&text.replace("        expose = 8080\n", "")),
        Err(ConfigError::MissingPort)
    );
    assert_eq!(
        parse_generated_config(&text.replace("        health = \"/health\"\n", "")),
        Err(ConfigError::MissingHealthPath)
    );
    assert_eq!(
        parse_generated_config(&text.replace("service \"api\"", "service api")),
        Err(ConfigError::MissingService)
    );
    assert_eq!(
        parse_generated_config("infra 1\nproject p {\n}\n"),
        Err(ConfigError::MissingProjectBlock)
    );
    assert_eq!(
        parse_generated_config("infra 1\nproject \"\" {\n}\n"),
        Err(ConfigError::MissingRuntime)
    );
}

#[test]
fn parse_accepts_a_plus_sign_like_str_parse() {
    let text = sample_config().render().replace("expose = 8080", "expose = +8081");
    assert_eq!(parse_generated_config(&text).unwrap().service.port, 8081);
}

#[test]
fn resolving_a_resolved_path_gives_it_back() {
    for p in [None, Some("."), Some("/srv/app"), Some("/srv/app/"), Some("prod.infra"), Some(""), Some("a/..")] {
        let once = ConfigPath::resolve(p).unwrap();
        let twice = ConfigPath::resolve(Some(once.as_ref())).unwrap();
        assert_eq!(twice, once);
    }
}
