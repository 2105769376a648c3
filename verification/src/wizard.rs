//! The `infra conf` dialogue as a state machine: each state says what to ask or
//! do next, and each answer moves it on. The caller performs the reading,
//! printing and file checks.
use crate::config::{opt_view, ProjectConfig, ProjectConfigView, ServiceConfig, ServiceConfigView};
use crate::text::{chars_of, decimal, decimal_chars, parse_unsigned, push_char, push_chars, push_str, string_of, trim, trimmed, unsigned_value};
use vstd::prelude::*;

verus! {

/// Why the dialogue ends without a configuration.
#[derive(Debug, Clone, Copy, PartialEq, Eq, Structural)]
pub enum WizardError {
    InvalidPort,
    NotWritten,
    OutputPathChanged,
}

/// The values detected from the service source.
pub struct DetectedValues {
    pub service_name: String,
    pub build_file: String,
    pub port: u16,
    pub health_path: String,
    pub environment: Option<String>,
}

pub struct DetectedView {
    pub service_name: Seq<char>,
    pub build_file: Seq<char>,
    pub port: nat,
    pub health_path: Seq<char>,
    pub environment: Option<Seq<char>>,
}

impl View for DetectedValues {
    type V = DetectedView;

    open spec fn view(&self) -> DetectedView {
        DetectedView {
            service_name: self.service_name@,
            build_file: self.build_file@,
            port: self.port as nat,
            health_path: self.health_path@,
            environment: opt_view(self.environment),
        }
    }
}

/// The detected values given which files the source holds.
pub open spec fn detection(containerfile_exists: bool, env_file_exists: bool) -> DetectedView {
    DetectedView {
        service_name: "api"@,
        build_file: if containerfile_exists {
            "Containerfile"@
        } else {
            "Dockerfile"@
        },
        port: 8080,
        health_path: "/health"@,
        environment: if env_file_exists {
            Some(".env"@)
        } else {
            None
        },
    }
}

/// The configuration the detected values give.
pub open spec fn detected_config(
    d: DetectedView,
    project: Seq<char>,
    runtime: Seq<char>,
    source: Seq<char>,
) -> ProjectConfigView {
    ProjectConfigView {
        version: 1,
        project,
        runtime,
        service: ServiceConfigView {
            name: d.service_name,
            source,
            build_file: d.build_file,
            port: d.port,
            health_path: d.health_path,
            environment: d.environment,
        },
        extensions: seq![],
    }
}

impl DetectedValues {
    /// The values for a source directory, given whether it holds a
    /// `Containerfile` and a `.env` file.
    pub fn from_source(containerfile_exists: bool, env_file_exists: bool) -> (r: DetectedValues)
        ensures
            r@ == detection(containerfile_exists, env_file_exists),
    {
        DetectedValues {
            service_name: "api".to_owned(),
            build_file: if containerfile_exists {
                "Containerfile".to_owned()
            } else {
                "Dockerfile".to_owned()
            },
            port: 8080,
            health_path: "/health".to_owned(),
            environment: if env_file_exists {
                Some(".env".to_owned())
            } else {
                None
            },
        }
    }

    /// The configuration that uses every detected value.
    pub fn into_config(self, project: String, runtime: String, source: String) -> (r: ProjectConfig)
        ensures
            r@ == detected_config(self@, project@, runtime@, source@),
    {
        ProjectConfig {
            version: 1,
            project,
            runtime,
            service: ServiceConfig {
                name: self.service_name,
                source,
                build_file: self.build_file,
                port: self.port,
                health_path: self.health_path,
                environment: self.environment,
            },
            extensions: String::new(),
        }
    }

    fn copy(&self) -> (r: DetectedValues)
        ensures
            r@ == self@,
    {
        DetectedValues {
            service_name: self.service_name.clone(),
            build_file: self.build_file.clone(),
            port: self.port,
            health_path: self.health_path.clone(),
            environment: match &self.environment {
                Some(e) => Some(e.clone()),
                None => None,
            },
        }
    }
}

/// A typed value, or the default when the line is blank. Typed values keep
/// their case.
pub open spec fn or_default(line: Seq<char>, default: Seq<char>) -> Seq<char> {
    if trim(line).len() == 0 {
        default
    } else {
        trim(line)
    }
}

/// `v` equals the lower-case word `w` once ASCII letters are lowered.
pub open spec fn is_word(v: Seq<char>, w: Seq<char>) -> bool {
    v.len() == w.len() && forall|i: int|
        0 <= i < v.len() ==> v[i] == w[i] || (65 <= v[i] as u32 <= 90 && (v[i] as u32) + 32
            == w[i] as u32)
}

/// A yes/no answer: blank gives the default, `y`/`yes` and `n`/`no` in any
/// case decide, anything else asks again.
pub open spec fn yes_no(line: Seq<char>, default_yes: bool) -> Option<bool> {
    let v = trim(line);
    if v.len() == 0 {
        Some(default_yes)
    } else if is_word(v, "y"@) || is_word(v, "yes"@) {
        Some(true)
    } else if is_word(v, "n"@) || is_word(v, "no"@) {
        Some(false)
    } else {
        None
    }
}

/// An optional value: the word `none`, in any case, means no value.
pub open spec fn optional_value(line: Seq<char>, default: Option<Seq<char>>) -> Option<Seq<char>> {
    let v = or_default(
        line,
        match default {
            Some(d) => d,
            None => "none"@,
        },
    );
    if is_word(v, "none"@) {
        None
    } else {
        Some(v)
    }
}

/// Whether `v` equals the lower-case word `w`, ignoring ASCII case.
pub fn matches_word(v: &Vec<char>, w: &Vec<char>) -> (b: bool)
    ensures
        b == is_word(v@, w@),
{
    if v.len() != w.len() {
        return false;
    }
    let mut i: usize = 0;
    while i < v.len()
        invariant
            i <= v.len(),
            v.len() == w.len(),
            forall|j: int|
                0 <= j < i ==> v@[j] == w@[j] || (65 <= v@[j] as u32 <= 90 && (v@[j] as u32) + 32
                    == w@[j] as u32),
        decreases v.len() - i,
    {
        let c = v[i];
        let u = c as u32;
        if !(c == w[i] || (65 <= u && u <= 90 && u + 32 == w[i] as u32)) {
            return false;
        }
        i = i + 1;
    }
    true
}

/// The value of an answer line, or the default when it is blank.
pub fn answer_or_default(line: &str, default: &str) -> (r: String)
    ensures
        r@ == or_default(line@, default@),
{
    let v = trimmed(&chars_of(line));
    if v.len() == 0 {
        default.to_owned()
    } else {
        string_of(&v)
    }
}

/// Reads a yes/no answer line; `None` means the question is asked again.
pub fn yes_no_answer(line: &str, default_yes: bool) -> (r: Option<bool>)
    ensures
        r == yes_no(line@, default_yes),
{
    let v = trimmed(&chars_of(line));
    if v.len() == 0 {
        Some(default_yes)
    } else if matches_word(&v, &chars_of("y")) || matches_word(&v, &chars_of("yes")) {
        Some(true)
    } else if matches_word(&v, &chars_of("n")) || matches_word(&v, &chars_of("no")) {
        Some(false)
    } else {
        None
    }
}

fn optional_answer(line: &str, default: &Option<String>) -> (r: Option<String>)
    ensures
        opt_view(r) == optional_value(line@, opt_view(*default)),
{
    let v = match default {
        Some(d) => answer_or_default(line, d.as_str()),
        None => answer_or_default(line, "none"),
    };
    if matches_word(&chars_of(v.as_str()), &chars_of("none")) {
        None
    } else {
        Some(v)
    }
}

/// Where the dialogue stands.
#[derive(Debug, Clone, Copy, PartialEq, Eq, Structural)]
pub enum Stage {
    ProjectName,
    Runtime,
    Source,
    Probe,
    AutoFill,
    ServiceName,
    BuildFile,
    Port,
    HealthPath,
    Environment,
    Review,
    EditBuildFile,
    EditMore,
    EditServiceName,
    EditPort,
    EditHealthPath,
    EditEnvironment,
    EditOutput,
    Finished,
    Failed(WizardError),
}

/// What the caller does next.
pub enum WizardAction {
    /// Print the text, read a line and pass it to `answer`.
    Ask(String),
    /// Check whether the source directory holds a `Containerfile` and a `.env`
    /// file and pass the results to `detected`.
    Probe(String),
    /// Write this configuration.
    Finished(ProjectConfig),
    /// Stop without writing.
    Failed(WizardError),
}

pub enum WizardActionView {
    Ask(Seq<char>),
    Probe(Seq<char>),
    Finished(ProjectConfigView),
    Failed(WizardError),
}

impl View for WizardAction {
    type V = WizardActionView;

    open spec fn view(&self) -> WizardActionView {
        match self {
            WizardAction::Ask(t) => WizardActionView::Ask(t@),
            WizardAction::Probe(s) => WizardActionView::Probe(s@),
            WizardAction::Finished(c) => WizardActionView::Finished(c@),
            WizardAction::Failed(e) => WizardActionView::Failed(*e),
        }
    }
}

/// The configuration dialogue of `infra conf`.
pub struct Wizard {
    stage: Stage,
    project_default: String,
    output: String,
    project: String,
    runtime: String,
    source: String,
    detected: DetectedValues,
    config: ProjectConfig,
    notice: String,
}

pub struct WizardView {
    pub stage: Stage,
    pub project_default: Seq<char>,
    pub output: Seq<char>,
    pub project: Seq<char>,
    pub runtime: Seq<char>,
    pub source: Seq<char>,
    pub detected: DetectedView,
    pub config: ProjectConfigView,
    pub notice: Seq<char>,
}

impl View for Wizard {
    type V = WizardView;

    closed spec fn view(&self) -> WizardView {
        WizardView {
            stage: self.stage,
            project_default: self.project_default@,
            output: self.output@,
            project: self.project@,
            runtime: self.runtime@,
            source: self.source@,
            detected: self.detected@,
            config: self.config@,
            notice: self.notice@,
        }
    }
}

/// `label [default]: ` or `label (default): `.
pub open spec fn prompt_text(label: Seq<char>, default: Seq<char>, open: char, close: char) -> Seq<
    char,
> {
    label + seq![' ', open] + default + seq![close, ':', ' ']
}

/// `label [y/n]: `.
pub open spec fn yes_no_text(label: Seq<char>) -> Seq<char> {
    label + " [y/n]: "@
}

pub open spec fn or_none(o: Option<Seq<char>>) -> Seq<char> {
    match o {
        Some(v) => v,
        None => "none"@,
    }
}

/// The review of a configuration before it is written.
pub open spec fn summary_text(c: ProjectConfigView, output: Seq<char>) -> Seq<char> {
    "\nconfiguration\n\n"@ + "project      "@ + c.project + "\n"@ + "runtime      "@ + c.runtime
        + "\n"@ + "service      "@ + c.service.name + "\n"@ + "source       "@
        + c.service.source + "\n"@ + "build        "@ + c.service.build_file + "\n"@
        + "port         "@ + decimal(c.service.port) + "\n"@ + "health       "@
        + c.service.health_path + "\n"@ + "environment  "@ + or_none(c.service.environment)
        + "\n"@ + "output       "@ + output + "\n\n"@
}

/// The question of a stage that expects an answer.
pub open spec fn stage_question(w: WizardView) -> Seq<char> {
    match w.stage {
        Stage::ProjectName => prompt_text("project name"@, w.project_default, '[', ']'),
        Stage::Runtime => prompt_text("runtime"@, "docker"@, '[', ']'),
        Stage::Source => prompt_text("service source"@, "."@, '[', ']'),
        Stage::AutoFill => yes_no_text("use detected values for the remaining fields?"@),
        Stage::ServiceName => prompt_text("service name"@, w.detected.service_name, '[', ']'),
        Stage::BuildFile => prompt_text("build file"@, w.detected.build_file, '[', ']'),
        Stage::Port => prompt_text("port"@, decimal(w.detected.port), '[', ']'),
        Stage::HealthPath => prompt_text("health path"@, w.detected.health_path, '[', ']'),
        Stage::Environment => prompt_text("environment"@, or_none(w.detected.environment), '[', ']'),
        Stage::Review => summary_text(w.config, w.output) + "write configuration? [y/e/n]: "@,
        Stage::EditBuildFile => prompt_text("build file"@, w.config.service.build_file, '(', ')'),
        Stage::EditMore => yes_no_text("edit remaining fields?"@),
        Stage::EditServiceName => prompt_text("service name"@, w.config.service.name, '(', ')'),
        Stage::EditPort => prompt_text("port"@, decimal(w.config.service.port), '(', ')'),
        Stage::EditHealthPath => prompt_text("health path"@, w.config.service.health_path, '(', ')'),
        Stage::EditEnvironment => prompt_text(
            "environment"@,
            or_none(w.config.service.environment),
            '(',
            ')',
        ),
        _ => prompt_text("output"@, w.output, '(', ')'),
    }
}

/// What the caller does next in a given state.
pub open spec fn next_action(w: WizardView) -> WizardActionView {
    match w.stage {
        Stage::Probe => WizardActionView::Probe(w.source),
        Stage::Finished => WizardActionView::Finished(w.config),
        Stage::Failed(e) => WizardActionView::Failed(e),
        _ => WizardActionView::Ask(w.notice + stage_question(w)),
    }
}

pub open spec fn with_service(c: ProjectConfigView, s: ServiceConfigView) -> ProjectConfigView {
    ProjectConfigView { service: s, ..c }
}

/// The state after an answer line.
pub open spec fn answered(w: WizardView, line: Seq<char>) -> WizardView {
    let w0 = WizardView { notice: seq![], ..w };
    let svc = w.config.service;
    match w.stage {
        Stage::ProjectName => WizardView {
            stage: Stage::Runtime,
            project: or_default(line, w.project_default),
            ..w0
        },
        Stage::Runtime => WizardView {
            stage: Stage::Source,
            runtime: or_default(line, "docker"@),
            ..w0
        },
        Stage::Source => WizardView { stage: Stage::Probe, source: or_default(line, "."@), ..w0 },
        Stage::AutoFill => match yes_no(line, true) {
            Some(true) => WizardView {
                stage: Stage::Review,
                config: detected_config(w.detected, w.project, w.runtime, w.source),
                ..w0
            },
            Some(false) => WizardView {
                stage: Stage::ServiceName,
                config: detected_config(w.detected, w.project, w.runtime, w.source),
                ..w0
            },
            None => WizardView { notice: "enter y or n\n"@, ..w },
        },
        Stage::ServiceName => WizardView {
            stage: Stage::BuildFile,
            config: with_service(
                w.config,
                ServiceConfigView { name: or_default(line, w.detected.service_name), ..svc },
            ),
            ..w0
        },
        Stage::BuildFile => WizardView {
            stage: Stage::Port,
            config: with_service(
                w.config,
                ServiceConfigView { build_file: or_default(line, w.detected.build_file), ..svc },
            ),
            ..w0
        },
        Stage::Port => match unsigned_value(or_default(line, decimal(w.detected.port)), 65535) {
            None => WizardView { stage: Stage::Failed(WizardError::InvalidPort), ..w0 },
            Some(p) => WizardView {
                stage: Stage::HealthPath,
                config: with_service(w.config, ServiceConfigView { port: p, ..svc }),
                ..w0
            },
        },
        Stage::HealthPath => WizardView {
            stage: Stage::Environment,
            config: with_service(
                w.config,
                ServiceConfigView { health_path: or_default(line, w.detected.health_path), ..svc },
            ),
            ..w0
        },
        Stage::Environment => WizardView {
            stage: Stage::Review,
            config: with_service(
                w.config,
                ServiceConfigView {
                    environment: optional_value(line, w.detected.environment),
                    ..svc
                },
            ),
            ..w0
        },
        Stage::Review => {
            let v = trim(line);
            if v.len() == 0 || is_word(v, "y"@) || is_word(v, "yes"@) {
                WizardView { stage: Stage::Finished, ..w0 }
            } else if is_word(v, "n"@) || is_word(v, "no"@) {
                WizardView { stage: Stage::Failed(WizardError::NotWritten), ..w0 }
            } else if is_word(v, "e"@) || is_word(v, "edit"@) {
                WizardView { stage: Stage::EditBuildFile, ..w0 }
            } else {
                WizardView { notice: "enter y, e, or n\n"@, ..w }
            }
        },
        Stage::EditBuildFile => WizardView {
            stage: Stage::EditMore,
            config: with_service(
                w.config,
                ServiceConfigView { build_file: or_default(line, svc.build_file), ..svc },
            ),
            ..w0
        },
        Stage::EditMore => match yes_no(line, false) {
            Some(true) => WizardView { stage: Stage::EditServiceName, ..w0 },
            Some(false) => WizardView { stage: Stage::Review, ..w0 },
            None => WizardView { notice: "enter y or n\n"@, ..w },
        },
        Stage::EditServiceName => WizardView {
            stage: Stage::EditPort,
            config: with_service(
                w.config,
                ServiceConfigView { name: or_default(line, svc.name), ..svc },
            ),
            ..w0
        },
        Stage::EditPort => match unsigned_value(or_default(line, decimal(svc.port)), 65535) {
            None => WizardView { stage: Stage::Failed(WizardError::InvalidPort), ..w0 },
            Some(p) => WizardView {
                stage: Stage::EditHealthPath,
                config: with_service(w.config, ServiceConfigView { port: p, ..svc }),
                ..w0
            },
        },
        Stage::EditHealthPath => WizardView {
            stage: Stage::EditEnvironment,
            config: with_service(
                w.config,
                ServiceConfigView { health_path: or_default(line, svc.health_path), ..svc },
            ),
            ..w0
        },
        Stage::EditEnvironment => WizardView {
            stage: Stage::EditOutput,
            config: with_service(
                w.config,
                ServiceConfigView { environment: optional_value(line, svc.environment), ..svc },
            ),
            ..w0
        },
        Stage::EditOutput => if or_default(line, w.output) != w.output {
            WizardView { stage: Stage::Failed(WizardError::OutputPathChanged), ..w0 }
        } else {
            WizardView { stage: Stage::Review, ..w0 }
        },
        _ => w,
    }
}

fn prompt_of(label: &str, default: &str, open: char, close: char) -> (r: String)
    ensures
        r@ == prompt_text(label@, default@, open, close),
{
    let mut s = label.to_owned();
    push_char(&mut s, ' ');
    push_char(&mut s, open);
    push_str(&mut s, default);
    push_char(&mut s, close);
    push_char(&mut s, ':');
    push_char(&mut s, ' ');
    assert(s@ =~= prompt_text(label@, default@, open, close));
    s
}

fn yes_no_of(label: &str) -> (r: String)
    ensures
        r@ == yes_no_text(label@),
{
    let mut s = label.to_owned();
    push_str(&mut s, " [y/n]: ");
    s
}

fn none_or(o: &Option<String>) -> (r: &str)
    ensures
        r@ == or_none(opt_view(*o)),
{
    match o {
        Some(v) => v.as_str(),
        None => "none",
    }
}

fn summary_of(c: &ProjectConfig, output: &str) -> (r: String)
    ensures
        r@ == summary_text(c@, output@),
{
    let mut s = "\nconfiguration\n\n".to_owned();
    push_str(&mut s, "project      ");
    push_str(&mut s, c.project.as_str());
    push_str(&mut s, "\n");
    push_str(&mut s, "runtime      ");
    push_str(&mut s, c.runtime.as_str());
    push_str(&mut s, "\n");
    push_str(&mut s, "service      ");
    push_str(&mut s, c.service.name.as_str());
    push_str(&mut s, "\n");
    push_str(&mut s, "source       ");
    push_str(&mut s, c.service.source.as_str());
    push_str(&mut s, "\n");
    push_str(&mut s, "build        ");
    push_str(&mut s, c.service.build_file.as_str());
    push_str(&mut s, "\n");
    push_str(&mut s, "port         ");
    push_chars(&mut s, &decimal_chars(c.service.port as u64));
    push_str(&mut s, "\n");
    push_str(&mut s, "health       ");
    push_str(&mut s, c.service.health_path.as_str());
    push_str(&mut s, "\n");
    push_str(&mut s, "environment  ");
    push_str(&mut s, none_or(&c.service.environment));
    push_str(&mut s, "\n");
    push_str(&mut s, "output       ");
    push_str(&mut s, output);
    push_str(&mut s, "\n\n");
    s
}

impl Wizard {
    /// A dialogue that proposes `project_default` as the project name and writes
    /// to `output`.
    pub fn new(project_default: String, output: String) -> (r: Wizard)
        ensures
            r@ == (WizardView {
                stage: Stage::ProjectName,
                project_default: project_default@,
                output: output@,
                project: seq![],
                runtime: seq![],
                source: seq![],
                detected: detection(false, false),
                config: detected_config(detection(false, false), seq![], seq![], seq![]),
                notice: seq![],
            }),
    {
        Wizard {
            stage: Stage::ProjectName,
            project_default,
            output,
            project: String::new(),
            runtime: String::new(),
            source: String::new(),
            detected: DetectedValues::from_source(false, false),
            config: DetectedValues::from_source(false, false).into_config(
                String::new(),
                String::new(),
                String::new(),
            ),
            notice: String::new(),
        }
    }

    fn question(&self) -> (r: String)
        ensures
            r@ == stage_question(self@),
    {
        let c = &self.config.service;
        match self.stage {
            Stage::ProjectName => prompt_of("project name", self.project_default.as_str(), '[', ']'),
            Stage::Runtime => prompt_of("runtime", "docker", '[', ']'),
            Stage::Source => prompt_of("service source", ".", '[', ']'),
            Stage::AutoFill => yes_no_of("use detected values for the remaining fields?"),
            Stage::ServiceName => prompt_of(
                "service name",
                self.detected.service_name.as_str(),
                '[',
                ']',
            ),
            Stage::BuildFile => prompt_of("build file", self.detected.build_file.as_str(), '[', ']'),
            Stage::Port => {
                let d = string_of(&decimal_chars(self.detected.port as u64));
                prompt_of("port", d.as_str(), '[', ']')
            },
            Stage::HealthPath => prompt_of(
                "health path",
                self.detected.health_path.as_str(),
                '[',
                ']',
            ),
            Stage::Environment => prompt_of(
                "environment",
                none_or(&self.detected.environment),
                '[',
                ']',
            ),
            Stage::Review => {
                let mut s = summary_of(&self.config, self.output.as_str());
                push_str(&mut s, "write configuration? [y/e/n]: ");
                s
            },
            Stage::EditBuildFile => prompt_of("build file", c.build_file.as_str(), '(', ')'),
            Stage::EditMore => yes_no_of("edit remaining fields?"),
            Stage::EditServiceName => prompt_of("service name", c.name.as_str(), '(', ')'),
            Stage::EditPort => {
                let d = string_of(&decimal_chars(c.port as u64));
                prompt_of("port", d.as_str(), '(', ')')
            },
            Stage::EditHealthPath => prompt_of("health path", c.health_path.as_str(), '(', ')'),
            Stage::EditEnvironment => prompt_of(
                "environment",
                none_or(&c.environment),
                '(',
                ')',
            ),
            _ => prompt_of("output", self.output.as_str(), '(', ')'),
        }
    }

    /// What to do next.
    pub fn pending(&self) -> (r: WizardAction)
        ensures
            r@ == next_action(self@),
    {
        match self.stage {
            Stage::Probe => WizardAction::Probe(self.source.clone()),
            Stage::Finished => WizardAction::Finished(self.config.copy()),
            Stage::Failed(e) => WizardAction::Failed(e),
            _ => {
                let mut s = self.notice.clone();
                push_str(&mut s, self.question().as_str());
                WizardAction::Ask(s)
            },
        }
    }

    /// Records which detection files the source directory holds.
    pub fn detected(&mut self, containerfile_exists: bool, env_file_exists: bool)
        ensures
            old(self)@.stage == Stage::Probe ==> final(self)@ == (WizardView {
                stage: Stage::AutoFill,
                detected: detection(containerfile_exists, env_file_exists),
                ..old(self)@
            }),
            old(self)@.stage != Stage::Probe ==> final(self)@ == old(self)@,
    {
        if self.stage == Stage::Probe {
            self.detected = DetectedValues::from_source(containerfile_exists, env_file_exists);
            self.stage = Stage::AutoFill;
        }
    }

    fn detected_config(&self) -> (r: ProjectConfig)
        ensures
            r@ == detected_config(self@.detected, self@.project, self@.runtime, self@.source),
    {
        self.detected.copy().into_config(
            self.project.clone(),
            self.runtime.clone(),
            self.source.clone(),
        )
    }

    /// Takes the answer line to the current question.
    pub fn answer(&mut self, line: &str)
        ensures
            final(self)@ == answered(old(self)@, line@),
    {
        let ghost w = self@;
        match self.stage {
            Stage::ProjectName => {
                self.project = answer_or_default(line, self.project_default.as_str());
                self.stage = Stage::Runtime;
                self.notice = String::new();
            },
            Stage::Runtime => {
                self.runtime = answer_or_default(line, "docker");
                self.stage = Stage::Source;
                self.notice = String::new();
            },
            Stage::Source => {
                self.source = answer_or_default(line, ".");
                self.stage = Stage::Probe;
                self.notice = String::new();
            },
            Stage::AutoFill => match yes_no_answer(line, true) {
                Some(yes) => {
                    self.config = self.detected_config();
                    self.stage = if yes {
                        Stage::Review
                    } else {
                        Stage::ServiceName
                    };
                    self.notice = String::new();
                },
                None => {
                    self.notice = "enter y or n\n".to_owned();
                },
            },
            Stage::ServiceName => {
                self.config.service.name = answer_or_default(
                    line,
                    self.detected.service_name.as_str(),
                );
                self.stage = Stage::BuildFile;
                self.notice = String::new();
            },
            Stage::BuildFile => {
                self.config.service.build_file = answer_or_default(
                    line,
                    self.detected.build_file.as_str(),
                );
                self.stage = Stage::Port;
                self.notice = String::new();
            },
            Stage::Port => {
                let d = string_of(&decimal_chars(self.detected.port as u64));
                let v = answer_or_default(line, d.as_str());
                match parse_unsigned(&chars_of(v.as_str()), 65535) {
                    Some(p) => {
                        self.config.service.port = p as u16;
                        self.stage = Stage::HealthPath;
                    },
                    None => {
                        self.stage = Stage::Failed(WizardError::InvalidPort);
                    },
                }
                self.notice = String::new();
            },
            Stage::HealthPath => {
                self.config.service.health_path = answer_or_default(
                    line,
                    self.detected.health_path.as_str(),
                );
                self.stage = Stage::Environment;
                self.notice = String::new();
            },
            Stage::Environment => {
                self.config.service.environment = optional_answer(line, &self.detected.environment);
                self.stage = Stage::Review;
                self.notice = String::new();
            },
            Stage::Review => {
                let v = trimmed(&chars_of(line));
                if v.len() == 0 || matches_word(&v, &chars_of("y")) || matches_word(
                    &v,
                    &chars_of("yes"),
                ) {
                    self.stage = Stage::Finished;
                    self.notice = String::new();
                } else if matches_word(&v, &chars_of("n")) || matches_word(&v, &chars_of("no")) {
                    self.stage = Stage::Failed(WizardError::NotWritten);
                    self.notice = String::new();
                } else if matches_word(&v, &chars_of("e")) || matches_word(&v, &chars_of("edit")) {
                    self.stage = Stage::EditBuildFile;
                    self.notice = String::new();
                } else {
                    self.notice = "enter y, e, or n\n".to_owned();
                }
            },
            Stage::EditBuildFile => {
                let v = answer_or_default(line, self.config.service.build_file.as_str());
                self.config.service.build_file = v;
                self.stage = Stage::EditMore;
                self.notice = String::new();
            },
            Stage::EditMore => match yes_no_answer(line, false) {
                Some(yes) => {
                    self.stage = if yes {
                        Stage::EditServiceName
                    } else {
                        Stage::Review
                    };
                    self.notice = String::new();
                },
                None => {
                    self.notice = "enter y or n\n".to_owned();
                },
            },
            Stage::EditServiceName => {
                let v = answer_or_default(line, self.config.service.name.as_str());
                self.config.service.name = v;
                self.stage = Stage::EditPort;
                self.notice = String::new();
            },
            Stage::EditPort => {
                let d = string_of(&decimal_chars(self.config.service.port as u64));
                let v = answer_or_default(line, d.as_str());
                match parse_unsigned(&chars_of(v.as_str()), 65535) {
                    Some(p) => {
                        self.config.service.port = p as u16;
                        self.stage = Stage::EditHealthPath;
                    },
                    None => {
                        self.stage = Stage::Failed(WizardError::InvalidPort);
                    },
                }
                self.notice = String::new();
            },
            Stage::EditHealthPath => {
                let v = answer_or_default(line, self.config.service.health_path.as_str());
                self.config.service.health_path = v;
                self.stage = Stage::EditEnvironment;
                self.notice = String::new();
            },
            Stage::EditEnvironment => {
                let v = optional_answer(line, &self.config.service.environment);
                self.config.service.environment = v;
                self.stage = Stage::EditOutput;
                self.notice = String::new();
            },
            Stage::EditOutput => {
                let v = answer_or_default(line, self.output.as_str());
                if !crate::text::eq_seq(&chars_of(v.as_str()), &chars_of(self.output.as_str())) {
                    self.stage = Stage::Failed(WizardError::OutputPathChanged);
                } else {
                    self.stage = Stage::Review;
                }
                self.notice = String::new();
            },
            _ => {},
        }
    }
}

} // verus!
