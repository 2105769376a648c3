use infra::wizard::{answer_or_default, yes_no_answer, DetectedValues, Wizard, WizardAction, WizardError};

fn ask(w: &Wizard) -> String {
    match w.pending() {
        WizardAction::Ask(text) => text,
        _ => panic!("expected a question"),
    }
}

fn start(project_default: &str) -> Wizard {
    let mut w = Wizard::new(project_default.into(), "./.infra".into());
    assert_eq!(ask(&w), "project name [market]: ");
    w.answer("\n");
    assert_eq!(ask(&w), "runtime [docker]: ");
    w.answer("");
    assert_eq!(ask(&w), "service source [.]: ");
    w.answer("  ");
    match w.pending() {
        WizardAction::Probe(source) => assert_eq!(source, "."),
        _ => panic!("expected a probe"),
    }
    w.detected(false, true);
    assert_eq!(ask(&w), "use detected values for the remaining fields? [y/n]: ");
    w
}

#[test]
fn accepting_every_default_writes_the_detected_configuration() {
    let mut w = start("market");
    w.answer("");
    let review = ask(&w);
    assert!(review.starts_with("\nconfiguration\n\nproject      market\n"));
    assert!(review.contains("build        Dockerfile\n"));
    assert!(review.contains("environment  .env\n"));
    assert!(review.ends_with("output       ./.infra\n\nwrite configuration? [y/e/n]: "));
    w.answer("Y");
    match w.pending() {
        WizardAction::Finished(c) => {
            assert_eq!(c.project, "market");
            assert_eq!(c.runtime, "docker");
            assert_eq!(c.service.name, "api");
            assert_eq!(c.service.source, ".");
            assert_eq!(c.service.build_file, "Dockerfile");
            assert_eq!(c.service.port, 8080);
            assert_eq!(c.service.health_path, "/health");
            assert_eq!(c.service.environment.as_deref(), Some(".env"));
            assert_eq!(c.version, 1);
        },
        _ => panic!("expected a configuration"),
    }
}

#[test]
fn manual_values_keep_their_case() {
    let mut w = start("market");
    w.answer("n");
    assert_eq!(ask(&w), "service name [api]: ");
    w.answer("Web");
    assert_eq!(ask(&w), "build file [Dockerfile]: ");
    w.answer("Containerfile");
    assert_eq!(ask(&w), "port [8080]: ");
    w.answer("3000");
    assert_eq!(ask(&w), "health path [/health]: ");
    w.answer("/Ready");
    assert_eq!(ask(&w), "environment [.env]: ");
    w.answer("NONE");
    w.answer("yes");
    match w.pending() {
        WizardAction::Finished(c) => {
            assert_eq!(c.service.name, "Web");
            assert_eq!(c.service.build_file, "Containerfile");
            assert_eq!(c.service.port, 3000);
            assert_eq!(c.service.health_path, "/Ready");
            assert_eq!(c.service.environment, None);
        },
        _ => panic!("expected a configuration"),
    }
}

#[test]
fn edit_mode_keeps_values_on_enter() {
    let mut w = start("market");
    w.answer("y");
    w.answer("E");
    assert_eq!(ask(&w), "build file (Dockerfile): ");
    w.answer("");
    assert_eq!(ask(&w), "edit remaining fields? [y/n]: ");
    w.answer("maybe");
    assert_eq!(ask(&w), "enter y or n\nedit remaining fields? [y/n]: ");
    w.answer("Y");
    assert_eq!(ask(&w), "service name (api): ");
    w.answer("");
    assert_eq!(ask(&w), "port (8080): ");
    w.answer("");
    assert_eq!(ask(&w), "health path (/health): ");
    w.answer("");
    assert_eq!(ask(&w), "environment (.env): ");
    w.answer("");
    assert_eq!(ask(&w), "output (./.infra): ");
    w.answer("");
    assert!(ask(&w).ends_with("write configuration? [y/e/n]: "));
    w.answer("");
    match w.pending() {
        WizardAction::Finished(c) => {
            assert_eq!(c.service.build_file, "Dockerfile");
            assert_eq!(c.service.port, 8080);
            assert_eq!(c.service.environment.as_deref(), Some(".env"));
        },
        _ => panic!("expected a configuration"),
    }
}

#[test]
fn refusals_and_invalid_answers() {
    let mut w = start("market");
    w.answer("y");
    w.answer("x");
    assert!(ask(&w).starts_with("enter y, e, or n\n\nconfiguration"));
    w.answer("No");
    assert!(matches!(w.pending(), WizardAction::Failed(WizardError::NotWritten)));

    let mut w = start("market");
    w.answer("n");
    w.answer("");
    w.answer("");
    w.answer("eighty");
    assert!(matches!(w.pending(), WizardAction::Failed(WizardError::InvalidPort)));

    let mut w = start("market");
    w.answer("y");
    w.answer("edit");
    for _ in 0..1 {
        w.answer("");
    }
    w.answer("y");
    for _ in 0..4 {
        w.answer("");
    }
    w.answer("elsewhere/.infra");
    assert!(matches!(w.pending(), WizardAction::Failed(WizardError::OutputPathChanged)));
}

#[test]
fn containerfile_is_detected() {
    let d = DetectedValues::from_source(true, false);
    assert_eq!(d.build_file, "Containerfile");
    assert_eq!(d.environment, None);
    let c = d.into_config("p".into(), "docker".into(), "./svc".into());
    assert_eq!(c.service.source, "./svc");
    assert_eq!(c.extensions, "");
}

#[test]
fn answers_and_choices() {
    assert_eq!(answer_or_default("  Value \n", "d"), "Value");
    assert_eq!(answer_or_default(" \t\n", "d"), "d");
    assert_eq!(yes_no_answer("", true), Some(true));
    assert_eq!(yes_no_answer("\n", false), Some(false));
    assert_eq!(yes_no_answer("NO", true), Some(false));
    assert_eq!(yes_no_answer("Yes", false), Some(true));
    assert_eq!(yes_no_answer("yep", false), None);
}
