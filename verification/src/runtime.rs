//! The Docker runtime: which `docker` invocations and messages each lifecycle
//! command amounts to for a project configuration.
use crate::config::ProjectConfig;
use crate::text::{chars_of, decimal, decimal_chars, eq_seq, push_char, push_chars, push_str, strs};
use vstd::prelude::*;

verus! {

/// One step of a runtime command, performed in order.
#[derive(Debug)]
pub enum RuntimeStep {
    /// Print a line.
    Print(String),
    /// Run `docker` with these arguments; when `required`, a failure stops the command.
    Docker { args: Vec<String>, required: bool },
}

pub enum RuntimeStepView {
    Print(Seq<char>),
    Docker { args: Seq<Seq<char>>, required: bool },
}

impl View for RuntimeStep {
    type V = RuntimeStepView;

    open spec fn view(&self) -> RuntimeStepView {
        match self {
            RuntimeStep::Print(s) => RuntimeStepView::Print(s@),
            RuntimeStep::Docker { args, required } => RuntimeStepView::Docker {
                args: strs(args@),
                required: *required,
            },
        }
    }
}

pub open spec fn steps_view(v: Seq<RuntimeStep>) -> Seq<RuntimeStepView> {
    v.map_values(|s: RuntimeStep| s@)
}

/// Why a runtime command is refused before anything runs.
#[derive(Debug, Clone, PartialEq, Eq)]
pub enum RuntimeError {
    UnsupportedRuntime { runtime: String },
    UnknownService { service: String },
}

/// A runtime backend: each command yields the steps that carry it out.
pub trait Runtime {
    fn status(&self, config: &ProjectConfig) -> Result<Vec<RuntimeStep>, RuntimeError>;

    fn apply(&self, config: &ProjectConfig) -> Result<Vec<RuntimeStep>, RuntimeError>;

    fn stop_project(&self, config: &ProjectConfig) -> Result<Vec<RuntimeStep>, RuntimeError>;

    fn service_status(&self, config: &ProjectConfig, service: &str) -> Result<
        Vec<RuntimeStep>,
        RuntimeError,
    >;

    fn logs(&self, config: &ProjectConfig, service: &str) -> Result<Vec<RuntimeStep>, RuntimeError>;

    fn restart(&self, config: &ProjectConfig, service: &str) -> Result<
        Vec<RuntimeStep>,
        RuntimeError,
    >;

    fn stop_service(&self, config: &ProjectConfig, service: &str) -> Result<
        Vec<RuntimeStep>,
        RuntimeError,
    >;
}

/// The Docker backend.
pub struct DockerRuntime;

/// The container of a service: `<project>-<service>`.
pub open spec fn container_of(project: Seq<char>, service: Seq<char>) -> Seq<char> {
    project + seq!['-'] + service
}

/// The image tag of the configured service: `<project>-<service>:latest`.
pub open spec fn image_tag(c: crate::config::ProjectConfigView) -> Seq<char> {
    c.project + seq!['-'] + c.service.name + ":latest"@
}

/// The steps of `infra`, the project status.
pub open spec fn status_steps(c: crate::config::ProjectConfigView) -> Seq<RuntimeStepView> {
    seq![
        RuntimeStepView::Print("project  "@ + c.project),
        RuntimeStepView::Print("runtime  "@ + c.runtime),
        RuntimeStepView::Print("service  "@ + c.service.name),
    ]
}

/// The `docker run` arguments that start the configured service from its image:
/// detached, named after the project and service, with its environment file
/// when it has one, and its port published.
pub open spec fn run_args(c: crate::config::ProjectConfigView) -> Seq<Seq<char>> {
    let port = decimal(c.service.port);
    seq!["run"@, "-d"@, "--name"@, container_of(c.project, c.service.name)] + match c.service.environment {
        Some(e) => seq!["--env-file"@, e],
        None => seq![],
    } + seq!["-p"@, port + seq![':'] + port, image_tag(c)]
}

/// Remove the service's container, ignoring failure, then start it anew from
/// its image.
pub open spec fn recreate_steps(c: crate::config::ProjectConfigView) -> Seq<RuntimeStepView> {
    seq![
        RuntimeStepView::Docker {
            args: seq!["rm"@, "-f"@, container_of(c.project, c.service.name)],
            required: false,
        },
        RuntimeStepView::Docker { args: run_args(c), required: true },
    ]
}

/// The steps of `infra apply`: build the image, then recreate the container
/// from it.
pub open spec fn apply_steps(c: crate::config::ProjectConfigView) -> Seq<RuntimeStepView> {
    seq![
        RuntimeStepView::Print("applying configuration..."@),
        RuntimeStepView::Docker {
            args: seq!["build"@, "-f"@, c.service.build_file, "-t"@, image_tag(c), c.service.source],
            required: true,
        },
    ] + recreate_steps(c) + seq![RuntimeStepView::Print("configuration applied"@)]
}

/// Remove the service's container, stopping it if it runs.
pub open spec fn remove_steps(c: crate::config::ProjectConfigView) -> Seq<RuntimeStepView> {
    seq![
        RuntimeStepView::Docker {
            args: seq!["rm"@, "-f"@, container_of(c.project, c.service.name)],
            required: true,
        },
    ]
}

/// A single required `docker <command> <container>` step.
pub open spec fn container_step(command: Seq<char>, container: Seq<char>) -> Seq<RuntimeStepView> {
    seq![RuntimeStepView::Docker { args: seq![command, container], required: true }]
}

fn text(s: &str) -> (r: String)
    ensures
        r@ == s@,
{
    s.to_owned()
}

fn one_step(command: &str, container: String) -> (r: Vec<RuntimeStep>)
    ensures
        steps_view(r@) == container_step(command@, container@),
{
    let args = vec![text(command), container];
    assert(strs(args@) =~= seq![command@, args@[1]@]);
    let r = vec![RuntimeStep::Docker { args, required: true }];
    assert(steps_view(r@) =~= container_step(command@, args@[1]@));
    r
}

/// The arguments of `docker run` for the configured service.
fn run_arguments(config: &ProjectConfig) -> (r: Vec<String>)
    ensures
        strs(r@) == run_args(config@),
{
    let container = DockerRuntime::container_name(config, config.service.name.as_str());
    let mut tag = DockerRuntime::container_name(config, config.service.name.as_str());
    push_str(&mut tag, ":latest");
    let port = decimal_chars(config.service.port as u64);
    let mut published = String::new();
    push_chars(&mut published, &port);
    push_char(&mut published, ':');
    push_chars(&mut published, &port);
    let ghost c = config@;
    assert(published@ =~= decimal(c.service.port) + seq![':'] + decimal(c.service.port));
    let mut r = vec![text("run"), text("-d"), text("--name"), container];
    assert(strs(r@) =~= seq!["run"@, "-d"@, "--name"@, container_of(c.project, c.service.name)]);
    let ghost head = strs(r@);
    match &config.service.environment {
        Some(e) => {
            r.push(text("--env-file"));
            r.push(e.clone());
        },
        None => {},
    }
    let ghost env = match c.service.environment {
        Some(e) => seq!["--env-file"@, e],
        None => Seq::<Seq<char>>::empty(),
    };
    assert(strs(r@) =~= head + env);
    r.push(text("-p"));
    r.push(published);
    r.push(tag);
    assert(strs(r@) =~= head + env + seq!["-p"@, decimal(c.service.port) + seq![':'] + decimal(
        c.service.port,
    ), image_tag(c)]);
    r
}

/// The steps that recreate the configured service's container from its image.
fn recreate(config: &ProjectConfig) -> (r: Vec<RuntimeStep>)
    ensures
        steps_view(r@) == recreate_steps(config@),
{
    let container = DockerRuntime::container_name(config, config.service.name.as_str());
    let remove = vec![text("rm"), text("-f"), container];
    let ghost c = config@;
    assert(strs(remove@) =~= seq!["rm"@, "-f"@, container_of(c.project, c.service.name)]);
    let r = vec![
        RuntimeStep::Docker { args: remove, required: false },
        RuntimeStep::Docker { args: run_arguments(config), required: true },
    ];
    assert(steps_view(r@) =~= recreate_steps(c));
    r
}

impl DockerRuntime {
    /// Accepts only the configured service.
    pub fn ensure_service(&self, config: &ProjectConfig, service: &str) -> (r: Result<
        (),
        RuntimeError,
    >)
        ensures
            r is Ok <==> config.service.name@ == service@,
            r matches Err(e) ==> e matches RuntimeError::UnknownService { service: s } && s@
                == service@,
    {
        if !eq_seq(&chars_of(config.service.name.as_str()), &chars_of(service)) {
            return Err(RuntimeError::UnknownService { service: text(service) });
        }
        Ok(())
    }

    /// `infra rm <service>`: remove the container of the configured service.
    pub fn remove_service(&self, config: &ProjectConfig, service: &str) -> (r: Result<
        Vec<RuntimeStep>,
        RuntimeError,
    >)
        ensures
            r is Ok <==> config.service.name@ == service@,
            r matches Ok(v) ==> steps_view(v@) == remove_steps(config@),
    {
        self.ensure_service(config, service)?;
        Ok(self.remove_all(config))
    }

    /// `infra rm --all`: remove the containers of every managed service.
    pub fn remove_all(&self, config: &ProjectConfig) -> (r: Vec<RuntimeStep>)
        ensures
            steps_view(r@) == remove_steps(config@),
    {
        let container = DockerRuntime::container_name(config, config.service.name.as_str());
        let args = vec![text("rm"), text("-f"), container];
        let ghost c = config@;
        assert(strs(args@) =~= seq!["rm"@, "-f"@, container_of(c.project, c.service.name)]);
        let r = vec![RuntimeStep::Docker { args, required: true }];
        assert(steps_view(r@) =~= remove_steps(c));
        r
    }

    /// The container that runs a service of the project.
    pub fn container_name(config: &ProjectConfig, service: &str) -> (r: String)
        ensures
            r@ == container_of(config.project@, service@),
    {
        let mut s = config.project.clone();
        push_char(&mut s, '-');
        push_str(&mut s, service);
        s
    }
}

impl Runtime for DockerRuntime {
    fn status(&self, config: &ProjectConfig) -> (r: Result<Vec<RuntimeStep>, RuntimeError>)
        ensures
            r matches Ok(v) && steps_view(v@) == status_steps(config@),
    {
        let mut a = text("project  ");
        push_str(&mut a, config.project.as_str());
        let mut b = text("runtime  ");
        push_str(&mut b, config.runtime.as_str());
        let mut c = text("service  ");
        push_str(&mut c, config.service.name.as_str());
        let r = vec![RuntimeStep::Print(a), RuntimeStep::Print(b), RuntimeStep::Print(c)];
        assert(steps_view(r@) =~= status_steps(config@));
        Ok(r)
    }

    fn apply(&self, config: &ProjectConfig) -> (r: Result<Vec<RuntimeStep>, RuntimeError>)
        ensures
            config.runtime@ == "docker"@ ==> (r matches Ok(v) && steps_view(v@) == apply_steps(
                config@,
            )),
            config.runtime@ != "docker"@ ==> (r matches Err(RuntimeError::UnsupportedRuntime {
                runtime,
            }) && runtime@ == config.runtime@),
    {
        if !eq_seq(&chars_of(config.runtime.as_str()), &chars_of("docker")) {
            return Err(RuntimeError::UnsupportedRuntime { runtime: config.runtime.clone() });
        }
        let mut tag = DockerRuntime::container_name(config, config.service.name.as_str());
        push_str(&mut tag, ":latest");
        let build = vec![
            text("build"),
            text("-f"),
            config.service.build_file.clone(),
            text("-t"),
            tag,
            config.service.source.clone(),
        ];
        let ghost c = config@;
        assert(strs(build@) =~= seq![
            "build"@,
            "-f"@,
            c.service.build_file,
            "-t"@,
            image_tag(c),
            c.service.source,
        ]);
        let mut r = vec![
            RuntimeStep::Print(text("applying configuration...")),
            RuntimeStep::Docker { args: build, required: true },
        ];
        let ghost first = steps_view(r@);
        let mut rest = recreate(config);
        r.append(&mut rest);
        r.push(RuntimeStep::Print(text("configuration applied")));
        assert(steps_view(r@) =~= apply_steps(c));
        Ok(r)
    }

    fn stop_project(&self, config: &ProjectConfig) -> (r: Result<Vec<RuntimeStep>, RuntimeError>)
        ensures
            r matches Ok(v) && steps_view(v@) == container_step(
                "stop"@,
                container_of(config.project@, config.service.name@),
            ) + seq![RuntimeStepView::Print("project stopped"@)],
    {
        let container = DockerRuntime::container_name(config, config.service.name.as_str());
        let mut r = one_step("stop", container);
        let ghost first = steps_view(r@);
        r.push(RuntimeStep::Print(text("project stopped")));
        assert(steps_view(r@) =~= first + seq![RuntimeStepView::Print("project stopped"@)]);
        Ok(r)
    }

    fn service_status(&self, config: &ProjectConfig, service: &str) -> (r: Result<
        Vec<RuntimeStep>,
        RuntimeError,
    >)
        ensures
            r is Ok <==> config.service.name@ == service@,
            r matches Ok(v) ==> steps_view(v@) == seq![
                RuntimeStepView::Docker {
                    args: seq![
                        "ps"@,
                        "-a"@,
                        "--filter"@,
                        "name=^"@ + container_of(config.project@, service@) + seq!['$'],
                    ],
                    required: true,
                },
            ],
    {
        self.ensure_service(config, service)?;
        let container = DockerRuntime::container_name(config, service);
        let mut filter = text("name=^");
        push_str(&mut filter, container.as_str());
        push_char(&mut filter, '$');
        let args = vec![text("ps"), text("-a"), text("--filter"), filter];
        let ghost fv = "name=^"@ + container_of(config.project@, service@) + seq!['$'];
        assert(filter@ =~= fv);
        assert(strs(args@) =~= seq!["ps"@, "-a"@, "--filter"@, fv]);
        let r = vec![RuntimeStep::Docker { args, required: true }];
        assert(steps_view(r@) =~= seq![
            RuntimeStepView::Docker { args: seq!["ps"@, "-a"@, "--filter"@, fv], required: true },
        ]);
        Ok(r)
    }

    fn logs(&self, config: &ProjectConfig, service: &str) -> (r: Result<Vec<RuntimeStep>, RuntimeError>)
        ensures
            r is Ok <==> config.service.name@ == service@,
            r matches Ok(v) ==> steps_view(v@) == container_step(
                "logs"@,
                container_of(config.project@, service@),
            ),
    {
        self.ensure_service(config, service)?;
        Ok(one_step("logs", DockerRuntime::container_name(config, service)))
    }

    fn restart(&self, config: &ProjectConfig, service: &str) -> (r: Result<
        Vec<RuntimeStep>,
        RuntimeError,
    >)
        ensures
            r is Ok <==> config.service.name@ == service@,
            r matches Ok(v) ==> steps_view(v@) == recreate_steps(config@),
    {
        self.ensure_service(config, service)?;
        Ok(recreate(config))
    }

    fn stop_service(&self, config: &ProjectConfig, service: &str) -> (r: Result<
        Vec<RuntimeStep>,
        RuntimeError,
    >)
        ensures
            r is Ok <==> config.service.name@ == service@,
            r matches Ok(v) ==> steps_view(v@) == container_step(
                "stop"@,
                container_of(config.project@, service@),
            ),
    {
        self.ensure_service(config, service)?;
        Ok(one_step("stop", DockerRuntime::container_name(config, service)))
    }
}

} // verus!
