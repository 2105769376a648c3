//! The `agent` block of a `.infra` file: its inputs, its output and the checks
//! that turn the parsed block into a monitoring configuration.
use crate::agent_error::{
    AgentConfigError, AgentError, AgentField, BlockKind, FieldList, IdentifierKind, Setting,
    UrlSetting,
};
use crate::network::{url_check, validate_private_or_https_url};
use crate::document::{
    assignment, assignment_of, identifier, integer, integer_of, named_block, named_block_of,
    numbered, quoted, quoted_of, significant_lines, significant_lines_of, string_list,
    string_list_of, validate_identifier, value_ref, value_ref_of, ValueRef, ValueRefView,
};
use crate::text::{chars_of, eq_seq, lines, string_of, strs};
use crate::address::{is_socket_address, socket_address};
use vstd::prelude::*;

verus! {

/// An `input "id" { ... }` block as written.
pub struct InputBuilder {
    pub id: String,
    pub driver: Option<String>,
    pub addresses: Option<Vec<String>>,
    pub projects: Option<Vec<String>>,
    pub services: Option<Vec<String>>,
    pub fields: Option<Vec<String>>,
}

/// An `output "id" { ... }` block as written.
pub struct OutputBuilder {
    pub id: String,
    pub driver: Option<String>,
    pub endpoint: Option<ValueRef>,
    pub source: Option<String>,
    pub credential: Option<ValueRef>,
    pub events: Option<Vec<String>>,
    pub fields: Option<Vec<String>>,
}

/// The `agent { ... }` block as written.
pub struct AgentBuilder {
    pub poll_interval_seconds: Option<u64>,
    pub health_bind: Option<ValueRef>,
    pub state_file: Option<ValueRef>,
    pub inputs: Vec<InputBuilder>,
    pub outputs: Vec<OutputBuilder>,
}

pub struct InputBuilderView {
    pub id: Seq<char>,
    pub driver: Option<Seq<char>>,
    pub addresses: Option<Seq<Seq<char>>>,
    pub projects: Option<Seq<Seq<char>>>,
    pub services: Option<Seq<Seq<char>>>,
    pub fields: Option<Seq<Seq<char>>>,
}

pub struct OutputBuilderView {
    pub id: Seq<char>,
    pub driver: Option<Seq<char>>,
    pub endpoint: Option<ValueRefView>,
    pub source: Option<Seq<char>>,
    pub credential: Option<ValueRefView>,
    pub events: Option<Seq<Seq<char>>>,
    pub fields: Option<Seq<Seq<char>>>,
}

pub struct AgentBuilderView {
    pub poll_interval_seconds: Option<nat>,
    pub health_bind: Option<ValueRefView>,
    pub state_file: Option<ValueRefView>,
    pub inputs: Seq<InputBuilderView>,
    pub outputs: Seq<OutputBuilderView>,
}

pub open spec fn os(o: Option<String>) -> Option<Seq<char>> {
    match o {
        Some(s) => Some(s@),
        None => None,
    }
}

pub open spec fn ol(o: Option<Vec<String>>) -> Option<Seq<Seq<char>>> {
    match o {
        Some(v) => Some(strs(v@)),
        None => None,
    }
}

pub open spec fn orv(o: Option<ValueRef>) -> Option<ValueRefView> {
    match o {
        Some(v) => Some(v@),
        None => None,
    }
}

impl View for InputBuilder {
    type V = InputBuilderView;

    open spec fn view(&self) -> InputBuilderView {
        InputBuilderView {
            id: self.id@,
            driver: os(self.driver),
            addresses: ol(self.addresses),
            projects: ol(self.projects),
            services: ol(self.services),
            fields: ol(self.fields),
        }
    }
}

impl View for OutputBuilder {
    type V = OutputBuilderView;

    open spec fn view(&self) -> OutputBuilderView {
        OutputBuilderView {
            id: self.id@,
            driver: os(self.driver),
            endpoint: orv(self.endpoint),
            source: os(self.source),
            credential: orv(self.credential),
            events: ol(self.events),
            fields: ol(self.fields),
        }
    }
}

impl View for AgentBuilder {
    type V = AgentBuilderView;

    open spec fn view(&self) -> AgentBuilderView {
        AgentBuilderView {
            poll_interval_seconds: match self.poll_interval_seconds {
                Some(v) => Some(v as nat),
                None => None,
            },
            health_bind: orv(self.health_bind),
            state_file: orv(self.state_file),
            inputs: self.inputs@.map_values(|b: InputBuilder| b@),
            outputs: self.outputs@.map_values(|b: OutputBuilder| b@),
        }
    }
}

pub open spec fn closing_brace() -> Seq<char> {
    seq!['}']
}

pub open spec fn new_input(id: Seq<char>) -> InputBuilderView {
    InputBuilderView {
        id,
        driver: None,
        addresses: None,
        projects: None,
        services: None,
        fields: None,
    }
}

pub open spec fn new_output(id: Seq<char>) -> OutputBuilderView {
    OutputBuilderView {
        id,
        driver: None,
        endpoint: None,
        source: None,
        credential: None,
        events: None,
        fields: None,
    }
}

pub open spec fn no_agent_settings() -> AgentBuilderView {
    AgentBuilderView {
        poll_interval_seconds: None,
        health_bind: None,
        state_file: None,
        inputs: seq![],
        outputs: seq![],
    }
}

/// The lines of an `input` block from index `i` up to its closing brace, and the
/// index after that brace.
pub open spec fn input_block(ls: Seq<(nat, Seq<char>)>, i: int, b: InputBuilderView) -> Result<
    (InputBuilderView, int),
    AgentError,
>
    decreases ls.len() - i,
{
    if i < 0 || i >= ls.len() {
        Err(AgentError::BlockNotClosed { block: BlockKind::Input })
    } else {
        let n = ls[i].0;
        let line = ls[i].1;
        if line == closing_brace() {
            Ok((b, i + 1))
        } else {
            match assignment(n, line) {
                Err(e) => Err(e),
                Ok((k, v)) => if k == "driver"@ {
                    match quoted(n, v) {
                        Err(e) => Err(e),
                        Ok(x) => if b.driver is Some {
                            Err(AgentError::DuplicateField { line: n, field: AgentField::Driver })
                        } else {
                            input_block(ls, i + 1, InputBuilderView { driver: Some(x), ..b })
                        },
                    }
                } else if k == "addresses"@ {
                    match string_list(n, v) {
                        Err(e) => Err(e),
                        Ok(x) => if b.addresses is Some {
                            Err(AgentError::DuplicateField { line: n, field: AgentField::Addresses })
                        } else {
                            input_block(ls, i + 1, InputBuilderView { addresses: Some(x), ..b })
                        },
                    }
                } else if k == "projects"@ {
                    match string_list(n, v) {
                        Err(e) => Err(e),
                        Ok(x) => if b.projects is Some {
                            Err(AgentError::DuplicateField { line: n, field: AgentField::Projects })
                        } else {
                            input_block(ls, i + 1, InputBuilderView { projects: Some(x), ..b })
                        },
                    }
                } else if k == "services"@ {
                    match string_list(n, v) {
                        Err(e) => Err(e),
                        Ok(x) => if b.services is Some {
                            Err(AgentError::DuplicateField { line: n, field: AgentField::Services })
                        } else {
                            input_block(ls, i + 1, InputBuilderView { services: Some(x), ..b })
                        },
                    }
                } else if k == "fields"@ {
                    match string_list(n, v) {
                        Err(e) => Err(e),
                        Ok(x) => if b.fields is Some {
                            Err(AgentError::DuplicateField { line: n, field: AgentField::Fields })
                        } else {
                            input_block(ls, i + 1, InputBuilderView { fields: Some(x), ..b })
                        },
                    }
                } else {
                    Err(AgentError::UnknownField { line: n, block: BlockKind::Input, key: k })
                },
            }
        }
    }
}

/// The lines of an `output` block from index `i` up to its closing brace, and the
/// index after that brace.
pub open spec fn output_block(ls: Seq<(nat, Seq<char>)>, i: int, b: OutputBuilderView) -> Result<
    (OutputBuilderView, int),
    AgentError,
>
    decreases ls.len() - i,
{
    if i < 0 || i >= ls.len() {
        Err(AgentError::BlockNotClosed { block: BlockKind::Output })
    } else {
        let n = ls[i].0;
        let line = ls[i].1;
        if line == closing_brace() {
            Ok((b, i + 1))
        } else {
            match assignment(n, line) {
                Err(e) => Err(e),
                Ok((k, v)) => if k == "driver"@ {
                    match quoted(n, v) {
                        Err(e) => Err(e),
                        Ok(x) => if b.driver is Some {
                            Err(AgentError::DuplicateField { line: n, field: AgentField::Driver })
                        } else {
                            output_block(ls, i + 1, OutputBuilderView { driver: Some(x), ..b })
                        },
                    }
                } else if k == "endpoint"@ {
                    match value_ref(n, v) {
                        Err(e) => Err(e),
                        Ok(x) => if b.endpoint is Some {
                            Err(AgentError::DuplicateField { line: n, field: AgentField::Endpoint })
                        } else {
                            output_block(ls, i + 1, OutputBuilderView { endpoint: Some(x), ..b })
                        },
                    }
                } else if k == "source"@ {
                    match quoted(n, v) {
                        Err(e) => Err(e),
                        Ok(x) => if b.source is Some {
                            Err(AgentError::DuplicateField { line: n, field: AgentField::Source })
                        } else {
                            output_block(ls, i + 1, OutputBuilderView { source: Some(x), ..b })
                        },
                    }
                } else if k == "credential"@ {
                    match value_ref(n, v) {
                        Err(e) => Err(e),
                        Ok(x) => if b.credential is Some {
                            Err(
                                AgentError::DuplicateField {
                                    line: n,
                                    field: AgentField::Credential,
                                },
                            )
                        } else {
                            output_block(ls, i + 1, OutputBuilderView { credential: Some(x), ..b })
                        },
                    }
                } else if k == "events"@ {
                    match string_list(n, v) {
                        Err(e) => Err(e),
                        Ok(x) => if b.events is Some {
                            Err(AgentError::DuplicateField { line: n, field: AgentField::Events })
                        } else {
                            output_block(ls, i + 1, OutputBuilderView { events: Some(x), ..b })
                        },
                    }
                } else if k == "fields"@ {
                    match string_list(n, v) {
                        Err(e) => Err(e),
                        Ok(x) => if b.fields is Some {
                            Err(AgentError::DuplicateField { line: n, field: AgentField::Fields })
                        } else {
                            output_block(ls, i + 1, OutputBuilderView { fields: Some(x), ..b })
                        },
                    }
                } else {
                    Err(AgentError::UnknownField { line: n, block: BlockKind::Output, key: k })
                },
            }
        }
    }
}

pub proof fn lemma_input_block_advances(ls: Seq<(nat, Seq<char>)>, i: int, b: InputBuilderView)
    ensures
        input_block(ls, i, b) matches Ok((_, j)) ==> i < j <= ls.len(),
    decreases ls.len() - i,
{
    if 0 <= i < ls.len() && ls[i].1 != closing_brace() {
        let n = ls[i].0;
        let line = ls[i].1;
        if let Ok((k, v)) = assignment(n, line) {
            if k == "driver"@ {
                if let Ok(x) = quoted(n, v) {
                    lemma_input_block_advances(ls, i + 1, InputBuilderView { driver: Some(x), ..b });
                }
            } else if k == "addresses"@ {
                if let Ok(x) = string_list(n, v) {
                    lemma_input_block_advances(
                        ls,
                        i + 1,
                        InputBuilderView { addresses: Some(x), ..b },
                    );
                }
            } else if k == "projects"@ {
                if let Ok(x) = string_list(n, v) {
                    lemma_input_block_advances(
                        ls,
                        i + 1,
                        InputBuilderView { projects: Some(x), ..b },
                    );
                }
            } else if k == "services"@ {
                if let Ok(x) = string_list(n, v) {
                    lemma_input_block_advances(
                        ls,
                        i + 1,
                        InputBuilderView { services: Some(x), ..b },
                    );
                }
            } else if k == "fields"@ {
                if let Ok(x) = string_list(n, v) {
                    lemma_input_block_advances(ls, i + 1, InputBuilderView { fields: Some(x), ..b });
                }
            }
        }
    }
}

pub proof fn lemma_output_block_advances(ls: Seq<(nat, Seq<char>)>, i: int, b: OutputBuilderView)
    ensures
        output_block(ls, i, b) matches Ok((_, j)) ==> i < j <= ls.len(),
    decreases ls.len() - i,
{
    if 0 <= i < ls.len() && ls[i].1 != closing_brace() {
        let n = ls[i].0;
        let line = ls[i].1;
        if let Ok((k, v)) = assignment(n, line) {
            if k == "driver"@ {
                if let Ok(x) = quoted(n, v) {
                    lemma_output_block_advances(
                        ls,
                        i + 1,
                        OutputBuilderView { driver: Some(x), ..b },
                    );
                }
            } else if k == "endpoint"@ {
                if let Ok(x) = value_ref(n, v) {
                    lemma_output_block_advances(
                        ls,
                        i + 1,
                        OutputBuilderView { endpoint: Some(x), ..b },
                    );
                }
            } else if k == "source"@ {
                if let Ok(x) = quoted(n, v) {
                    lemma_output_block_advances(
                        ls,
                        i + 1,
                        OutputBuilderView { source: Some(x), ..b },
                    );
                }
            } else if k == "credential"@ {
                if let Ok(x) = value_ref(n, v) {
                    lemma_output_block_advances(
                        ls,
                        i + 1,
                        OutputBuilderView { credential: Some(x), ..b },
                    );
                }
            } else if k == "events"@ {
                if let Ok(x) = string_list(n, v) {
                    lemma_output_block_advances(
                        ls,
                        i + 1,
                        OutputBuilderView { events: Some(x), ..b },
                    );
                }
            } else if k == "fields"@ {
                if let Ok(x) = string_list(n, v) {
                    lemma_output_block_advances(
                        ls,
                        i + 1,
                        OutputBuilderView { fields: Some(x), ..b },
                    );
                }
            }
        }
    }
}

/// An `input "id" {` block whose lines start at index `i`: the id must be an
/// identifier, then the block is read up to its closing brace.
pub open spec fn input_section(ls: Seq<(nat, Seq<char>)>, i: int, id: Seq<char>) -> Result<
    (InputBuilderView, int),
    AgentError,
> {
    if !identifier(id) {
        Err(AgentError::InvalidIdentifier { kind: IdentifierKind::Input })
    } else {
        input_block(ls, i, new_input(id))
    }
}

/// An `output "id" {` block whose lines start at index `i`: the id must be an
/// identifier, then the block is read up to its closing brace.
pub open spec fn output_section(ls: Seq<(nat, Seq<char>)>, i: int, id: Seq<char>) -> Result<
    (OutputBuilderView, int),
    AgentError,
> {
    if !identifier(id) {
        Err(AgentError::InvalidIdentifier { kind: IdentifierKind::Output })
    } else {
        output_block(ls, i, new_output(id))
    }
}

/// The settings of the `agent` block from line index `i` up to its closing
/// brace, and the index after that brace.
pub open spec fn agent_block(ls: Seq<(nat, Seq<char>)>, i: int, b: AgentBuilderView) -> Result<
    (AgentBuilderView, int),
    AgentError,
>
    decreases ls.len() - i,
{
    if i < 0 || i >= ls.len() {
        Err(AgentError::BlockNotClosed { block: BlockKind::Agent })
    } else {
        let n = ls[i].0;
        let line = ls[i].1;
        if line == closing_brace() {
            Ok((b, i + 1))
        } else {
            match named_block(line, "input"@) {
                Some(id) => match input_section(ls, i + 1, id) {
                    Err(e) => Err(e),
                    Ok((x, j)) => {
                        proof {
                            lemma_input_block_advances(ls, i + 1, new_input(id));
                        }
                        agent_block(ls, j, AgentBuilderView { inputs: b.inputs.push(x), ..b })
                    },
                },
                None => match named_block(line, "output"@) {
                    Some(id) => match output_section(ls, i + 1, id) {
                        Err(e) => Err(e),
                        Ok((x, j)) => {
                            proof {
                                lemma_output_block_advances(ls, i + 1, new_output(id));
                            }
                            agent_block(ls, j, AgentBuilderView { outputs: b.outputs.push(x), ..b })
                        },
                    },
                    None => match assignment(n, line) {
                        Err(e) => Err(e),
                        Ok((k, v)) => if k == "poll_interval_seconds"@ {
                            match integer(n, v) {
                                Err(e) => Err(e),
                                Ok(x) => if b.poll_interval_seconds is Some {
                                    Err(
                                        AgentError::DuplicateField {
                                            line: n,
                                            field: AgentField::PollIntervalSeconds,
                                        },
                                    )
                                } else {
                                    agent_block(
                                        ls,
                                        i + 1,
                                        AgentBuilderView { poll_interval_seconds: Some(x), ..b },
                                    )
                                },
                            }
                        } else if k == "health_bind"@ {
                            match value_ref(n, v) {
                                Err(e) => Err(e),
                                Ok(x) => if b.health_bind is Some {
                                    Err(
                                        AgentError::DuplicateField {
                                            line: n,
                                            field: AgentField::HealthBind,
                                        },
                                    )
                                } else {
                                    agent_block(
                                        ls,
                                        i + 1,
                                        AgentBuilderView { health_bind: Some(x), ..b },
                                    )
                                },
                            }
                        } else if k == "state_file"@ {
                            match value_ref(n, v) {
                                Err(e) => Err(e),
                                Ok(x) => if b.state_file is Some {
                                    Err(
                                        AgentError::DuplicateField {
                                            line: n,
                                            field: AgentField::StateFile,
                                        },
                                    )
                                } else {
                                    agent_block(
                                        ls,
                                        i + 1,
                                        AgentBuilderView { state_file: Some(x), ..b },
                                    )
                                },
                            }
                        } else {
                            Err(AgentError::UnknownField { line: n, block: BlockKind::Agent, key: k })
                        },
                    },
                },
            }
        }
    }
}

/// The index of the first line that is exactly `agent {`, from `i` on.
pub open spec fn agent_header(ls: Seq<(nat, Seq<char>)>, i: int) -> Option<int>
    decreases ls.len() - i,
{
    if i < 0 || i >= ls.len() {
        None
    } else if ls[i].1 == "agent {"@ {
        Some(i)
    } else {
        agent_header(ls, i + 1)
    }
}

/// The `agent` block of a document as written.
pub open spec fn agent_settings(input: Seq<char>) -> Result<AgentBuilderView, AgentError> {
    let ls = significant_lines(lines(input));
    match agent_header(ls, 0) {
        None => Err(AgentError::MissingAgentBlock),
        Some(k) => match agent_block(ls, k + 1, no_agent_settings()) {
            Ok((b, _)) => Ok(b),
            Err(e) => Err(e),
        },
    }
}

/// The literal keys of the agent contract.
struct Keys {
    driver: Vec<char>,
    addresses: Vec<char>,
    projects: Vec<char>,
    services: Vec<char>,
    fields: Vec<char>,
    endpoint: Vec<char>,
    source: Vec<char>,
    credential: Vec<char>,
    events: Vec<char>,
    poll: Vec<char>,
    health_bind: Vec<char>,
    state_file: Vec<char>,
    input: Vec<char>,
    output: Vec<char>,
    close: Vec<char>,
}

impl Keys {
    spec fn valid(&self) -> bool {
        &&& self.driver@ == "driver"@
        &&& self.addresses@ == "addresses"@
        &&& self.projects@ == "projects"@
        &&& self.services@ == "services"@
        &&& self.fields@ == "fields"@
        &&& self.endpoint@ == "endpoint"@
        &&& self.source@ == "source"@
        &&& self.credential@ == "credential"@
        &&& self.events@ == "events"@
        &&& self.poll@ == "poll_interval_seconds"@
        &&& self.health_bind@ == "health_bind"@
        &&& self.state_file@ == "state_file"@
        &&& self.input@ == "input"@
        &&& self.output@ == "output"@
        &&& self.close@ == closing_brace()
    }

    fn new() -> (r: Keys)
        ensures
            r.valid(),
    {
        let close = vec!['}'];
        assert(close@ =~= closing_brace());
        Keys {
            driver: chars_of("driver"),
            addresses: chars_of("addresses"),
            projects: chars_of("projects"),
            services: chars_of("services"),
            fields: chars_of("fields"),
            endpoint: chars_of("endpoint"),
            source: chars_of("source"),
            credential: chars_of("credential"),
            events: chars_of("events"),
            poll: chars_of("poll_interval_seconds"),
            health_bind: chars_of("health_bind"),
            state_file: chars_of("state_file"),
            input: chars_of("input"),
            output: chars_of("output"),
            close,
        }
    }
}

fn parse_input(ls: &Vec<(usize, Vec<char>)>, index: &mut usize, id: String, keys: &Keys) -> (r: Result<
    InputBuilder,
    AgentConfigError,
>)
    requires
        keys.valid(),
    ensures
        match r {
            Ok(b) => input_section(numbered(ls@), *old(index) as int, id@) == Ok::<
                _,
                AgentError,
            >((b@, *final(index) as int)),
            Err(e) => input_section(numbered(ls@), *old(index) as int, id@) == Err::<
                (InputBuilderView, int),
                _,
            >(e@),
        },
{
    if !validate_identifier(&chars_of(id.as_str())) {
        return Err(AgentConfigError::InvalidIdentifier { kind: IdentifierKind::Input });
    }
    let ghost start = *index as int;
    let ghost nls = numbered(ls@);
    let ghost id_view = id@;
    let mut b = InputBuilder {
        id,
        driver: None,
        addresses: None,
        projects: None,
        services: None,
        fields: None,
    };
    assert(b@ == new_input(b.id@));
    while *index < ls.len()
        invariant
            keys.valid(),
            nls == numbered(ls@),
            start == *old(index) as int,
            b.id@ == id_view,
            id_view == id@,
            identifier(id_view),
            input_block(nls, start, new_input(b.id@)) == input_block(nls, *index as int, b@),
        decreases ls.len() - *index,
    {
        let i = *index;
        let n = ls[i].0;
        let line = &ls[i].1;
        assert(nls[i as int] == (n as nat, line@));
        *index = i + 1;
        if eq_seq(line, &keys.close) {
            return Ok(b);
        }
        let (k, v) = assignment_of(n, line)?;
        if eq_seq(&k, &keys.driver) {
            let x = quoted_of(n, &v)?;
            if b.driver.is_some() {
                return Err(AgentConfigError::DuplicateField { line: n, field: AgentField::Driver });
            }
            b.driver = Some(x);
        } else if eq_seq(&k, &keys.addresses) {
            let x = string_list_of(n, &v)?;
            if b.addresses.is_some() {
                return Err(
                    AgentConfigError::DuplicateField { line: n, field: AgentField::Addresses },
                );
            }
            b.addresses = Some(x);
        } else if eq_seq(&k, &keys.projects) {
            let x = string_list_of(n, &v)?;
            if b.projects.is_some() {
                return Err(
                    AgentConfigError::DuplicateField { line: n, field: AgentField::Projects },
                );
            }
            b.projects = Some(x);
        } else if eq_seq(&k, &keys.services) {
            let x = string_list_of(n, &v)?;
            if b.services.is_some() {
                return Err(
                    AgentConfigError::DuplicateField { line: n, field: AgentField::Services },
                );
            }
            b.services = Some(x);
        } else if eq_seq(&k, &keys.fields) {
            let x = string_list_of(n, &v)?;
            if b.fields.is_some() {
                return Err(AgentConfigError::DuplicateField { line: n, field: AgentField::Fields });
            }
            b.fields = Some(x);
        } else {
            return Err(
                AgentConfigError::UnknownField {
                    line: n,
                    block: BlockKind::Input,
                    key: crate::text::string_of(&k),
                },
            );
        }
    }
    Err(AgentConfigError::BlockNotClosed { block: BlockKind::Input })
}

fn parse_output(ls: &Vec<(usize, Vec<char>)>, index: &mut usize, id: String, keys: &Keys) -> (r:
    Result<OutputBuilder, AgentConfigError>)
    requires
        keys.valid(),
    ensures
        match r {
            Ok(b) => output_section(numbered(ls@), *old(index) as int, id@) == Ok::<
                _,
                AgentError,
            >((b@, *final(index) as int)),
            Err(e) => output_section(numbered(ls@), *old(index) as int, id@) == Err::<
                (OutputBuilderView, int),
                _,
            >(e@),
        },
{
    if !validate_identifier(&chars_of(id.as_str())) {
        return Err(AgentConfigError::InvalidIdentifier { kind: IdentifierKind::Output });
    }
    let ghost start = *index as int;
    let ghost nls = numbered(ls@);
    let ghost id_view = id@;
    let mut b = OutputBuilder {
        id,
        driver: None,
        endpoint: None,
        source: None,
        credential: None,
        events: None,
        fields: None,
    };
    assert(b@ == new_output(b.id@));
    while *index < ls.len()
        invariant
            keys.valid(),
            nls == numbered(ls@),
            start == *old(index) as int,
            b.id@ == id_view,
            id_view == id@,
            identifier(id_view),
            output_block(nls, start, new_output(b.id@)) == output_block(nls, *index as int, b@),
        decreases ls.len() - *index,
    {
        let i = *index;
        let n = ls[i].0;
        let line = &ls[i].1;
        assert(nls[i as int] == (n as nat, line@));
        *index = i + 1;
        if eq_seq(line, &keys.close) {
            return Ok(b);
        }
        let (k, v) = assignment_of(n, line)?;
        if eq_seq(&k, &keys.driver) {
            let x = quoted_of(n, &v)?;
            if b.driver.is_some() {
                return Err(AgentConfigError::DuplicateField { line: n, field: AgentField::Driver });
            }
            b.driver = Some(x);
        } else if eq_seq(&k, &keys.endpoint) {
            let x = value_ref_of(n, &v)?;
            if b.endpoint.is_some() {
                return Err(
                    AgentConfigError::DuplicateField { line: n, field: AgentField::Endpoint },
                );
            }
            b.endpoint = Some(x);
        } else if eq_seq(&k, &keys.source) {
            let x = quoted_of(n, &v)?;
            if b.source.is_some() {
                return Err(AgentConfigError::DuplicateField { line: n, field: AgentField::Source });
            }
            b.source = Some(x);
        } else if eq_seq(&k, &keys.credential) {
            let x = value_ref_of(n, &v)?;
            if b.credential.is_some() {
                return Err(
                    AgentConfigError::DuplicateField { line: n, field: AgentField::Credential },
                );
            }
            b.credential = Some(x);
        } else if eq_seq(&k, &keys.events) {
            let x = string_list_of(n, &v)?;
            if b.events.is_some() {
                return Err(AgentConfigError::DuplicateField { line: n, field: AgentField::Events });
            }
            b.events = Some(x);
        } else if eq_seq(&k, &keys.fields) {
            let x = string_list_of(n, &v)?;
            if b.fields.is_some() {
                return Err(AgentConfigError::DuplicateField { line: n, field: AgentField::Fields });
            }
            b.fields = Some(x);
        } else {
            return Err(
                AgentConfigError::UnknownField {
                    line: n,
                    block: BlockKind::Output,
                    key: crate::text::string_of(&k),
                },
            );
        }
    }
    Err(AgentConfigError::BlockNotClosed { block: BlockKind::Output })
}

fn parse_agent(ls: &Vec<(usize, Vec<char>)>, index: &mut usize, keys: &Keys) -> (r: Result<
    AgentBuilder,
    AgentConfigError,
>)
    requires
        keys.valid(),
    ensures
        match r {
            Ok(b) => agent_block(numbered(ls@), *old(index) as int, no_agent_settings()) == Ok::<
                _,
                AgentError,
            >((b@, *final(index) as int)),
            Err(e) => agent_block(numbered(ls@), *old(index) as int, no_agent_settings()) == Err::<
                (AgentBuilderView, int),
                _,
            >(e@),
        },
{
    let ghost start = *index as int;
    let ghost nls = numbered(ls@);
    let mut b = AgentBuilder {
        poll_interval_seconds: None,
        health_bind: None,
        state_file: None,
        inputs: Vec::new(),
        outputs: Vec::new(),
    };
    assert(b@.inputs =~= Seq::<InputBuilderView>::empty());
    assert(b@.outputs =~= Seq::<OutputBuilderView>::empty());
    assert(b@ == no_agent_settings());
    while *index < ls.len()
        invariant
            keys.valid(),
            nls == numbered(ls@),
            start == *old(index) as int,
            agent_block(nls, start, no_agent_settings()) == agent_block(nls, *index as int, b@),
        decreases ls.len() - *index,
    {
        let i = *index;
        let n = ls[i].0;
        let line = &ls[i].1;
        assert(nls[i as int] == (n as nat, line@));
        *index = i + 1;
        if eq_seq(line, &keys.close) {
            return Ok(b);
        }
        if let Some(id) = named_block_of(line, &keys.input) {
            let ghost before = b@;
            let ghost idv = id@;
            let x = parse_input(ls, index, id, keys)?;
            proof {
                lemma_input_block_advances(nls, i + 1, new_input(idv));
            }
            b.inputs.push(x);
            assert(b@.inputs =~= before.inputs.push(x@));
            assert(b@ == AgentBuilderView { inputs: before.inputs.push(x@), ..before });
            continue ;
        }
        if let Some(id) = named_block_of(line, &keys.output) {
            let ghost before = b@;
            let ghost idv = id@;
            let x = parse_output(ls, index, id, keys)?;
            proof {
                lemma_output_block_advances(nls, i + 1, new_output(idv));
            }
            b.outputs.push(x);
            assert(b@.outputs =~= before.outputs.push(x@));
            assert(b@ == AgentBuilderView { outputs: before.outputs.push(x@), ..before });
            continue ;
        }
        let (k, v) = assignment_of(n, line)?;
        if eq_seq(&k, &keys.poll) {
            let x = integer_of(n, &v)?;
            if b.poll_interval_seconds.is_some() {
                return Err(
                    AgentConfigError::DuplicateField {
                        line: n,
                        field: AgentField::PollIntervalSeconds,
                    },
                );
            }
            b.poll_interval_seconds = Some(x);
        } else if eq_seq(&k, &keys.health_bind) {
            let x = value_ref_of(n, &v)?;
            if b.health_bind.is_some() {
                return Err(
                    AgentConfigError::DuplicateField { line: n, field: AgentField::HealthBind },
                );
            }
            b.health_bind = Some(x);
        } else if eq_seq(&k, &keys.state_file) {
            let x = value_ref_of(n, &v)?;
            if b.state_file.is_some() {
                return Err(
                    AgentConfigError::DuplicateField { line: n, field: AgentField::StateFile },
                );
            }
            b.state_file = Some(x);
        } else {
            return Err(
                AgentConfigError::UnknownField {
                    line: n,
                    block: BlockKind::Agent,
                    key: crate::text::string_of(&k),
                },
            );
        }
    }
    Err(AgentConfigError::BlockNotClosed { block: BlockKind::Agent })
}

/// Reads the `agent` block of a document as written, before any check of its values.
pub fn parse_agent_settings(input: &str) -> (r: Result<AgentBuilder, AgentConfigError>)
    ensures
        match r {
            Ok(b) => agent_settings(input@) == Ok::<_, AgentError>(b@),
            Err(e) => agent_settings(input@) == Err::<AgentBuilderView, _>(e@),
        },
{
    let ls = significant_lines_of(input);
    let ghost nls = numbered(ls@);
    let header = chars_of("agent {");
    let keys = Keys::new();
    let mut start: usize = 0;
    while start < ls.len() && !eq_seq(&ls[start].1, &header)
        invariant
            start <= ls.len(),
            nls == numbered(ls@),
            header@ == "agent {"@,
            agent_header(nls, 0) == agent_header(nls, start as int),
        decreases ls.len() - start,
    {
        start = start + 1;
    }
    if start == ls.len() {
        return Err(AgentConfigError::MissingAgentBlock);
    }
    let mut index = start + 1;
    let b = parse_agent(&ls, &mut index, &keys)?;
    Ok(b)
}

/// A Docker input of the monitoring agent.
pub struct DockerInput {
    pub id: String,
    pub addresses: Vec<String>,
    pub projects: Vec<String>,
    pub services: Vec<String>,
    pub fields: Vec<String>,
}

/// The infraBot output that receives the agent's events.
pub struct InfraBotOutput {
    pub id: String,
    pub endpoint: String,
    pub source: String,
    pub credential: String,
    pub events: Vec<String>,
    pub fields: Vec<String>,
}

/// The checked configuration of the monitoring agent. `health_bind` is the
/// socket address, as text, that the health server binds.
pub struct AgentConfig {
    pub poll_interval_seconds: u64,
    pub health_bind: String,
    pub state_file: String,
    pub inputs: Vec<DockerInput>,
    pub output: InfraBotOutput,
}

pub struct DockerInputView {
    pub id: Seq<char>,
    pub addresses: Seq<Seq<char>>,
    pub projects: Seq<Seq<char>>,
    pub services: Seq<Seq<char>>,
    pub fields: Seq<Seq<char>>,
}

pub struct InfraBotOutputView {
    pub id: Seq<char>,
    pub endpoint: Seq<char>,
    pub source: Seq<char>,
    pub credential: Seq<char>,
    pub events: Seq<Seq<char>>,
    pub fields: Seq<Seq<char>>,
}

pub struct AgentConfigView {
    pub poll_interval_seconds: nat,
    pub health_bind: Seq<char>,
    pub state_file: Seq<char>,
    pub inputs: Seq<DockerInputView>,
    pub output: InfraBotOutputView,
}

impl View for DockerInput {
    type V = DockerInputView;

    open spec fn view(&self) -> DockerInputView {
        DockerInputView {
            id: self.id@,
            addresses: strs(self.addresses@),
            projects: strs(self.projects@),
            services: strs(self.services@),
            fields: strs(self.fields@),
        }
    }
}

impl View for InfraBotOutput {
    type V = InfraBotOutputView;

    open spec fn view(&self) -> InfraBotOutputView {
        InfraBotOutputView {
            id: self.id@,
            endpoint: self.endpoint@,
            source: self.source@,
            credential: self.credential@,
            events: strs(self.events@),
            fields: strs(self.fields@),
        }
    }
}

impl View for AgentConfig {
    type V = AgentConfigView;

    open spec fn view(&self) -> AgentConfigView {
        AgentConfigView {
            poll_interval_seconds: self.poll_interval_seconds as nat,
            health_bind: self.health_bind@,
            state_file: self.state_file@,
            inputs: self.inputs@.map_values(|d: DockerInput| d@),
            output: self.output@,
        }
    }
}

/// The fields that an input may extract from a Docker observation.
pub open spec fn allowed_input_fields() -> Seq<Seq<char>> {
    seq![
        "input"@,
        "docker_address"@,
        "container"@,
        "container_id"@,
        "project"@,
        "service"@,
        "image"@,
        "state"@,
        "health"@,
    ]
}

/// The fields that an output may render.
pub open spec fn allowed_output_fields() -> Seq<Seq<char>> {
    seq![
        "kind"@,
        "input"@,
        "docker_address"@,
        "container"@,
        "container_id"@,
        "project"@,
        "service"@,
        "image"@,
        "state"@,
        "health"@,
        "previous_status"@,
        "status"@,
    ]
}

fn allowed_input_field_names() -> (r: Vec<Vec<char>>)
    ensures
        crate::text::views(r@) == allowed_input_fields(),
{
    let r = vec![
        chars_of("input"),
        chars_of("docker_address"),
        chars_of("container"),
        chars_of("container_id"),
        chars_of("project"),
        chars_of("service"),
        chars_of("image"),
        chars_of("state"),
        chars_of("health"),
    ];
    assert(crate::text::views(r@) =~= allowed_input_fields());
    r
}

fn allowed_output_field_names() -> (r: Vec<Vec<char>>)
    ensures
        crate::text::views(r@) == allowed_output_fields(),
{
    let r = vec![
        chars_of("kind"),
        chars_of("input"),
        chars_of("docker_address"),
        chars_of("container"),
        chars_of("container_id"),
        chars_of("project"),
        chars_of("service"),
        chars_of("image"),
        chars_of("state"),
        chars_of("health"),
        chars_of("previous_status"),
        chars_of("status"),
    ];
    assert(crate::text::views(r@) =~= allowed_output_fields());
    r
}

/// The names must be allowed and distinct, each problem reported at the first
/// name that has it.
pub open spec fn field_names_scan(values: Seq<Seq<char>>, allowed: Seq<Seq<char>>, list: FieldList) -> Result<
    (),
    AgentError,
>
    decreases values.len(),
{
    if values.len() == 0 {
        Ok(())
    } else {
        match field_names_scan(values.drop_last(), allowed, list) {
            Err(e) => Err(e),
            Ok(()) => if !allowed.contains(values.last()) {
                Err(AgentError::UnknownFieldName { list, name: values.last() })
            } else if values.drop_last().contains(values.last()) {
                Err(AgentError::DuplicateFieldName { list, name: values.last() })
            } else {
                Ok(())
            },
        }
    }
}

/// A non-empty list of allowed, distinct field names, kept in order.
pub open spec fn field_names(values: Seq<Seq<char>>, allowed: Seq<Seq<char>>, list: FieldList) -> Result<
    Seq<Seq<char>>,
    AgentError,
> {
    if values.len() == 0 {
        Err(AgentError::EmptyFields { list })
    } else {
        match field_names_scan(values, allowed, list) {
            Err(e) => Err(e),
            Ok(()) => Ok(values),
        }
    }
}

proof fn lemma_scan_error_persists(
    values: Seq<Seq<char>>,
    allowed: Seq<Seq<char>>,
    list: FieldList,
    k: int,
    e: AgentError,
)
    requires
        0 <= k <= values.len(),
        field_names_scan(values.take(k), allowed, list) == Err::<(), _>(e),
    ensures
        field_names_scan(values, allowed, list) == Err::<(), _>(e),
    decreases values.len() - k,
{
    if k < values.len() {
        assert(values.take(k + 1).drop_last() =~= values.take(k));
        lemma_scan_error_persists(values, allowed, list, k + 1, e);
    } else {
        assert(values.take(k) =~= values);
    }
}

fn contains_name(names: &Vec<Vec<char>>, v: &Vec<char>) -> (b: bool)
    ensures
        b == crate::text::views(names@).contains(v@),
{
    let ghost nv = crate::text::views(names@);
    let mut i: usize = 0;
    while i < names.len()
        invariant
            i <= names.len(),
            nv == crate::text::views(names@),
            forall|j: int| 0 <= j < i ==> nv[j] != v@,
        decreases names.len() - i,
    {
        if eq_seq(&names[i], v) {
            assert(nv[i as int] == v@);
            return true;
        }
        i = i + 1;
    }
    false
}

fn contains_string_before(values: &Vec<String>, end: usize, v: &Vec<char>) -> (b: bool)
    requires
        end <= values.len(),
    ensures
        b == strs(values@).take(end as int).contains(v@),
{
    let ghost sv = strs(values@).take(end as int);
    let mut i: usize = 0;
    while i < end
        invariant
            i <= end <= values.len(),
            sv == strs(values@).take(end as int),
            forall|j: int| 0 <= j < i ==> sv[j] != v@,
        decreases end - i,
    {
        if eq_seq(&chars_of(values[i].as_str()), v) {
            assert(sv[i as int] == v@);
            return true;
        }
        i = i + 1;
    }
    false
}

/// Checks a field list: non-empty, only allowed names, no name twice.
pub fn validate_fields_ordered(values: Vec<String>, allowed: &Vec<Vec<char>>, list: FieldList) -> (r:
    Result<Vec<String>, AgentConfigError>)
    ensures
        match r {
            Ok(v) => field_names(strs(values@), crate::text::views(allowed@), list) == Ok::<
                _,
                AgentError,
            >(strs(v@)),
            Err(e) => field_names(strs(values@), crate::text::views(allowed@), list) == Err::<
                Seq<Seq<char>>,
                _,
            >(e@),
        },
{
    if values.len() == 0 {
        return Err(AgentConfigError::EmptyFields { list });
    }
    let ghost sv = strs(values@);
    let ghost av = crate::text::views(allowed@);
    let mut i: usize = 0;
    assert(sv.take(0) =~= Seq::<Seq<char>>::empty());
    while i < values.len()
        invariant
            i <= values.len(),
            values@.len() > 0,
            sv == strs(values@),
            av == crate::text::views(allowed@),
            field_names_scan(sv.take(i as int), av, list) == Ok::<(), AgentError>(()),
        decreases values.len() - i,
    {
        let v = chars_of(values[i].as_str());
        let ghost next = sv.take(i + 1);
        assert(next.drop_last() =~= sv.take(i as int));
        assert(next.last() == v@);
        if !contains_name(allowed, &v) {
            proof {
                lemma_scan_error_persists(
                    sv,
                    av,
                    list,
                    i + 1,
                    AgentError::UnknownFieldName { list, name: v@ },
                );
            }
            return Err(AgentConfigError::UnknownFieldName { list, name: string_of(&v) });
        }
        if contains_string_before(&values, i, &v) {
            proof {
                lemma_scan_error_persists(
                    sv,
                    av,
                    list,
                    i + 1,
                    AgentError::DuplicateFieldName { list, name: v@ },
                );
            }
            return Err(AgentConfigError::DuplicateFieldName { list, name: string_of(&v) });
        }
        i = i + 1;
    }
    assert(sv.take(values.len() as int) =~= sv);
    Ok(values)
}

/// The value of an environment variable, looked up in name/value pairs.
pub open spec fn env_lookup(env: Seq<(String, String)>, name: Seq<char>) -> Option<Seq<char>>
    decreases env.len(),
{
    if env.len() == 0 {
        None
    } else if env[0].0@ == name {
        Some(env[0].1@)
    } else {
        env_lookup(env.drop_first(), name)
    }
}

/// A value from the file, or from a non-empty environment variable.
pub open spec fn resolved(v: ValueRefView, setting: Setting, env: Seq<(String, String)>) -> Result<
    Seq<char>,
    AgentError,
> {
    match v {
        ValueRefView::Literal(s) => Ok(s),
        ValueRefView::Environment(name) => match env_lookup(env, name) {
            Some(x) => if x.len() > 0 {
                Ok(x)
            } else {
                Err(AgentError::MissingEnvironmentValue { setting, variable: name })
            },
            None => Err(AgentError::MissingEnvironmentValue { setting, variable: name }),
        },
    }
}

/// A setting that must be present.
pub open spec fn resolved_required(
    o: Option<ValueRefView>,
    setting: Setting,
    env: Seq<(String, String)>,
) -> Result<Seq<char>, AgentError> {
    match o {
        None => Err(AgentError::MissingSetting { setting }),
        Some(v) => resolved(v, setting, env),
    }
}

/// A setting with a default.
pub open spec fn resolved_or(
    o: Option<ValueRefView>,
    default: Seq<char>,
    setting: Setting,
    env: Seq<(String, String)>,
) -> Result<Seq<char>, AgentError> {
    match o {
        None => Ok(default),
        Some(v) => resolved(v, setting, env),
    }
}

fn lookup_env(env: &Vec<(String, String)>, name: &Vec<char>) -> (r: Option<String>)
    ensures
        match r {
            Some(x) => env_lookup(env@, name@) == Some(x@),
            None => env_lookup(env@, name@) is None,
        },
{
    let mut i: usize = 0;
    assert(env@.subrange(0, env@.len() as int) =~= env@);
    while i < env.len()
        invariant
            i <= env.len(),
            env_lookup(env@, name@) == env_lookup(env@.subrange(i as int, env@.len() as int), name@),
        decreases env.len() - i,
    {
        let ghost rest = env@.subrange(i as int, env@.len() as int);
        if eq_seq(&chars_of(env[i].0.as_str()), name) {
            assert(rest[0] == env@[i as int]);
            return Some(env[i].1.clone());
        }
        assert(rest.drop_first() =~= env@.subrange(i + 1, env@.len() as int));
        i = i + 1;
    }
    None
}

fn resolve_value(v: &ValueRef, setting: Setting, env: &Vec<(String, String)>) -> (r: Result<
    String,
    AgentConfigError,
>)
    ensures
        match r {
            Ok(x) => resolved(v@, setting, env@) == Ok::<_, AgentError>(x@),
            Err(e) => resolved(v@, setting, env@) == Err::<Seq<char>, _>(e@),
        },
{
    match v {
        ValueRef::Literal(s) => Ok(s.clone()),
        ValueRef::Environment(name) => match lookup_env(env, &chars_of(name.as_str())) {
            Some(x) => if !x.as_str().is_empty() {
                Ok(x)
            } else {
                Err(
                    AgentConfigError::MissingEnvironmentValue { setting, variable: name.clone() },
                )
            },
            None => Err(
                AgentConfigError::MissingEnvironmentValue { setting, variable: name.clone() },
            ),
        },
    }
}

/// Resolves a setting that must be present.
pub fn resolve_required(o: &Option<ValueRef>, setting: Setting, env: &Vec<(String, String)>) -> (r:
    Result<String, AgentConfigError>)
    ensures
        match r {
            Ok(x) => resolved_required(orv(*o), setting, env@) == Ok::<_, AgentError>(x@),
            Err(e) => resolved_required(orv(*o), setting, env@) == Err::<Seq<char>, _>(e@),
        },
{
    match o {
        None => Err(AgentConfigError::MissingSetting { setting }),
        Some(v) => resolve_value(v, setting, env),
    }
}

/// Resolves a setting, or gives its default when absent.
pub fn resolve_or(
    o: &Option<ValueRef>,
    default: &str,
    setting: Setting,
    env: &Vec<(String, String)>,
) -> (r: Result<String, AgentConfigError>)
    ensures
        match r {
            Ok(x) => resolved_or(orv(*o), default@, setting, env@) == Ok::<_, AgentError>(x@),
            Err(e) => resolved_or(orv(*o), default@, setting, env@) == Err::<Seq<char>, _>(e@),
        },
{
    match o {
        None => Ok(default.to_owned()),
        Some(v) => resolve_value(v, setting, env),
    }
}

/// An absolute path (`Path::is_absolute` on Unix: it starts at the root).
pub open spec fn absolute(p: Seq<char>) -> bool {
    p.len() > 0 && p[0] == '/'
}

/// The text without its trailing slashes (`str::trim_end_matches('/')`).
pub open spec fn without_trailing_slashes(s: Seq<char>) -> Seq<char>
    decreases s.len(),
{
    if s.len() > 0 && s.last() == '/' {
        without_trailing_slashes(s.drop_last())
    } else {
        s
    }
}

/// Each URL checked in order; the first rejected one decides.
pub open spec fn urls_scan(a: Seq<Seq<char>>, setting: UrlSetting) -> Result<(), AgentError>
    decreases a.len(),
{
    if a.len() == 0 {
        Ok(())
    } else {
        match urls_scan(a.drop_last(), setting) {
            Err(e) => Err(e),
            Ok(()) => url_check(a.last(), setting),
        }
    }
}

/// The ids of the inputs before index `k`.
pub open spec fn ids_before(ins: Seq<InputBuilderView>, k: int) -> Seq<Seq<char>> {
    ins.take(k).map_values(|b: InputBuilderView| b.id)
}

pub open spec fn or_empty(o: Option<Seq<Seq<char>>>) -> Seq<Seq<char>> {
    match o {
        Some(v) => v,
        None => seq![],
    }
}

/// The checks of the `k`-th input block.
pub open spec fn checked_input(ins: Seq<InputBuilderView>, k: int) -> Result<DockerInputView, AgentError> {
    let x = ins[k];
    if ids_before(ins, k).contains(x.id) {
        Err(AgentError::DuplicateInput { id: x.id })
    } else if x.driver != Some("docker"@) {
        Err(AgentError::InputDriverNotDocker { id: x.id })
    } else {
        match x.addresses {
            None => Err(AgentError::MissingAddresses),
            Some(a) => if a.len() == 0 {
                Err(AgentError::NoAddress { id: x.id })
            } else {
                match urls_scan(a, UrlSetting::InputAddress) {
                    Err(e) => Err(e),
                    Ok(()) => match x.fields {
                        None => Err(AgentError::MissingFields { list: FieldList::InputFields }),
                        Some(f) => match field_names(
                            f,
                            allowed_input_fields(),
                            FieldList::InputFields,
                        ) {
                            Err(e) => Err(e),
                            Ok(f) => Ok(
                                DockerInputView {
                                    id: x.id,
                                    addresses: a,
                                    projects: or_empty(x.projects),
                                    services: or_empty(x.services),
                                    fields: f,
                                },
                            ),
                        },
                    },
                }
            },
        }
    }
}

/// The first `k` input blocks, checked in order.
pub open spec fn checked_inputs(ins: Seq<InputBuilderView>, k: int) -> Result<
    Seq<DockerInputView>,
    AgentError,
>
    decreases k,
{
    if k <= 0 {
        Ok(seq![])
    } else {
        match checked_inputs(ins, k - 1) {
            Err(e) => Err(e),
            Ok(v) => match checked_input(ins, k - 1) {
                Ok(d) => Ok(v.push(d)),
                Err(e) => Err(e),
            },
        }
    }
}

/// The checks of the output block.
pub open spec fn checked_output(o: OutputBuilderView, env: Seq<(String, String)>) -> Result<
    InfraBotOutputView,
    AgentError,
> {
    if o.driver != Some("infrabot"@) {
        Err(AgentError::OutputDriverNotInfrabot { id: o.id })
    } else {
        match resolved_required(o.endpoint, Setting::OutputEndpoint, env) {
            Err(e) => Err(e),
            Ok(endpoint) => match url_check(endpoint, UrlSetting::OutputEndpoint) {
                Err(e) => Err(e),
                Ok(()) => match o.source {
                    None => Err(AgentError::MissingSource),
                    Some(source) => if !identifier(source) {
                        Err(AgentError::InvalidIdentifier { kind: IdentifierKind::OutputSource })
                    } else {
                        match resolved_required(o.credential, Setting::OutputCredential, env) {
                            Err(e) => Err(e),
                            Ok(credential) => if !absolute(credential) {
                                Err(AgentError::CredentialNotAbsolute)
                            } else {
                                match o.events {
                                    None => Err(AgentError::MissingEvents),
                                    Some(events) => if events.len() == 0 {
                                        Err(AgentError::NoEvents { id: o.id })
                                    } else {
                                        match o.fields {
                                            None => Err(
                                                AgentError::MissingFields {
                                                    list: FieldList::OutputFields,
                                                },
                                            ),
                                            Some(f) => match field_names(
                                                f,
                                                allowed_output_fields(),
                                                FieldList::OutputFields,
                                            ) {
                                                Err(e) => Err(e),
                                                Ok(fields) => Ok(
                                                    InfraBotOutputView {
                                                        id: o.id,
                                                        endpoint: without_trailing_slashes(
                                                            endpoint,
                                                        ),
                                                        source,
                                                        credential,
                                                        events: distinct_in_order(events),
                                                        fields,
                                                    },
                                                ),
                                            },
                                        }
                                    },
                                }
                            },
                        }
                    },
                },
            },
        }
    }
}

/// The checked agent configuration for the block as written.
pub open spec fn agent_configuration(b: AgentBuilderView, env: Seq<(String, String)>) -> Result<
    AgentConfigView,
    AgentError,
> {
    let poll = match b.poll_interval_seconds {
        Some(p) => p,
        None => 15,
    };
    if poll < 5 || poll > 3600 {
        Err(AgentError::PollIntervalOutOfRange)
    } else {
        match resolved_or(b.health_bind, "0.0.0.0:9090"@, Setting::HealthBind, env) {
            Err(e) => Err(e),
            Ok(health_bind) => if !socket_address(health_bind) {
                Err(AgentError::InvalidHealthBind)
            } else {
                match resolved_or(b.state_file, "/var/lib/infra/state.json"@, Setting::StateFile, env) {
                    Err(e) => Err(e),
                    Ok(state_file) => if !absolute(state_file) {
                        Err(AgentError::StateFileNotAbsolute)
                    } else {
                        match checked_inputs(b.inputs, b.inputs.len() as int) {
                            Err(e) => Err(e),
                            Ok(inputs) => if inputs.len() == 0 {
                                Err(AgentError::NoInputs)
                            } else if b.outputs.len() != 1 {
                                Err(AgentError::OutputCount)
                            } else {
                                match checked_output(b.outputs[0], env) {
                                    Err(e) => Err(e),
                                    Ok(output) => Ok(
                                        AgentConfigView {
                                            poll_interval_seconds: poll,
                                            health_bind,
                                            state_file,
                                            inputs,
                                            output,
                                        },
                                    ),
                                }
                            },
                        }
                    },
                }
            },
        }
    }
}

/// The agent configuration that a document declares.
pub open spec fn agent_document(input: Seq<char>, env: Seq<(String, String)>) -> Result<
    AgentConfigView,
    AgentError,
> {
    match agent_settings(input) {
        Err(e) => Err(e),
        Ok(b) => agent_configuration(b, env),
    }
}

/// The texts in order of first appearance, each once: the set of subscribed
/// event kinds.
pub open spec fn distinct_in_order(s: Seq<Seq<char>>) -> Seq<Seq<char>>
    decreases s.len(),
{
    if s.len() == 0 {
        seq![]
    } else {
        let r = distinct_in_order(s.drop_last());
        if r.contains(s.last()) {
            r
        } else {
            r.push(s.last())
        }
    }
}

proof fn lemma_push_contains(s: Seq<Seq<char>>, l: Seq<char>)
    ensures
        forall|x: Seq<char>| s.push(l).contains(x) <==> (s.contains(x) || x == l),
{
    assert forall|x: Seq<char>| s.push(l).contains(x) <==> (s.contains(x) || x == l) by {
        if s.push(l).contains(x) {
            let k = choose|k: int| 0 <= k < s.push(l).len() && s.push(l)[k] == x;
            if k < s.len() {
                assert(s[k] == x);
            }
        }
        if s.contains(x) {
            let k = choose|k: int| 0 <= k < s.len() && s[k] == x;
            assert(s.push(l)[k] == x);
        }
        if x == l {
            assert(s.push(l)[s.len() as int] == x);
        }
    }
}

/// The distinct texts hold each text of the original once, and nothing else.
pub proof fn lemma_distinct_in_order(s: Seq<Seq<char>>)
    ensures
        forall|x: Seq<char>| distinct_in_order(s).contains(x) <==> s.contains(x),
        forall|i: int, j: int|
            0 <= i < j < distinct_in_order(s).len() ==> distinct_in_order(s)[i]
                != distinct_in_order(s)[j],
        distinct_in_order(s).len() == 0 <==> s.len() == 0,
    decreases s.len(),
{
    if s.len() > 0 {
        let p = s.drop_last();
        lemma_distinct_in_order(p);
        let r = distinct_in_order(p);
        let l = s.last();
        assert(s =~= p.push(l));
        lemma_push_contains(p, l);
        lemma_push_contains(r, l);
        assert forall|x: Seq<char>| distinct_in_order(s).contains(x) <==> s.contains(x) by {
            assert(p.push(l).contains(x) <==> (p.contains(x) || x == l));
            assert(r.push(l).contains(x) <==> (r.contains(x) || x == l));
            assert(r.contains(x) <==> p.contains(x));
            if r.contains(l) {
                assert(p.contains(l));
            }
        }
        if !r.contains(s.last()) {
            assert(r.push(s.last()).len() > 0);
        } else {
            assert(r.len() > 0);
        }
    }
}

fn contains_text(v: &Vec<String>, x: &String) -> (b: bool)
    ensures
        b == strs(v@).contains(x@),
{
    let xc = chars_of(x.as_str());
    let mut i: usize = 0;
    while i < v.len()
        invariant
            i <= v.len(),
            xc@ == x@,
            forall|j: int| 0 <= j < i ==> strs(v@)[j] != x@,
        decreases v.len() - i,
    {
        if eq_seq(&chars_of(v[i].as_str()), &xc) {
            assert(strs(v@)[i as int] == x@);
            return true;
        }
        i = i + 1;
    }
    false
}

/// The texts in order of first appearance, each once.
fn distinct_strings(v: &Vec<String>) -> (r: Vec<String>)
    ensures
        strs(r@) == distinct_in_order(strs(v@)),
{
    let mut r: Vec<String> = Vec::new();
    let mut i: usize = 0;
    assert(strs(v@).take(0) =~= Seq::<Seq<char>>::empty());
    while i < v.len()
        invariant
            i <= v.len(),
            strs(r@) == distinct_in_order(strs(v@).take(i as int)),
        decreases v.len() - i,
    {
        let ghost before = strs(r@);
        assert(strs(v@).take(i + 1).drop_last() =~= strs(v@).take(i as int));
        assert(strs(v@).take(i + 1).last() == v@[i as int]@);
        if !contains_text(&r, &v[i]) {
            r.push(v[i].clone());
            assert(strs(r@) =~= before.push(v@[i as int]@));
        }
        i = i + 1;
    }
    assert(strs(v@).take(v.len() as int) =~= strs(v@));
    r
}

fn copy_strings(v: &Vec<String>) -> (r: Vec<String>)
    ensures
        strs(r@) == strs(v@),
{
    let mut r: Vec<String> = Vec::new();
    let mut i: usize = 0;
    while i < v.len()
        invariant
            i <= v.len(),
            strs(r@) == strs(v@).take(i as int),
        decreases v.len() - i,
    {
        let ghost before = strs(r@);
        let c = v[i].clone();
        assert(c@ == v@[i as int]@);
        r.push(c);
        assert(strs(r@) =~= before.push(v@[i as int]@));
        assert(strs(r@) =~= strs(v@).take(i + 1));
        i = i + 1;
    }
    assert(strs(v@).take(v@.len() as int) =~= strs(v@));
    r
}

fn copy_opt_strings(o: &Option<Vec<String>>) -> (r: Vec<String>)
    ensures
        strs(r@) == or_empty(ol(*o)),
{
    match o {
        Some(v) => copy_strings(v),
        None => {
            let r: Vec<String> = Vec::new();
            assert(strs(r@) =~= Seq::<Seq<char>>::empty());
            r
        },
    }
}

fn check_addresses(a: &Vec<String>) -> (r: Result<(), AgentConfigError>)
    ensures
        match r {
            Ok(()) => urls_scan(strs(a@), UrlSetting::InputAddress) == Ok::<(), AgentError>(()),
            Err(e) => urls_scan(strs(a@), UrlSetting::InputAddress) == Err::<(), _>(e@),
        },
{
    let ghost av = strs(a@);
    let mut i: usize = 0;
    assert(av.take(0) =~= Seq::<Seq<char>>::empty());
    while i < a.len()
        invariant
            i <= a.len(),
            av == strs(a@),
            urls_scan(av.take(i as int), UrlSetting::InputAddress) == Ok::<(), AgentError>(()),
        decreases a.len() - i,
    {
        assert(av.take(i + 1).drop_last() =~= av.take(i as int));
        assert(av.take(i + 1).last() == a@[i as int]@);
        match validate_private_or_https_url(a[i].as_str(), UrlSetting::InputAddress) {
            Ok(()) => {},
            Err(e) => {
                proof {
                    lemma_urls_error_persists(av, i + 1, e@);
                }
                return Err(e);
            },
        }
        i = i + 1;
    }
    assert(av.take(a.len() as int) =~= av);
    Ok(())
}

proof fn lemma_urls_error_persists(a: Seq<Seq<char>>, k: int, e: AgentError)
    requires
        0 <= k <= a.len(),
        urls_scan(a.take(k), UrlSetting::InputAddress) == Err::<(), _>(e),
    ensures
        urls_scan(a, UrlSetting::InputAddress) == Err::<(), _>(e),
    decreases a.len() - k,
{
    if k < a.len() {
        assert(a.take(k + 1).drop_last() =~= a.take(k));
        lemma_urls_error_persists(a, k + 1, e);
    } else {
        assert(a.take(k) =~= a);
    }
}

fn id_taken(ins: &Vec<InputBuilder>, k: usize) -> (b: bool)
    requires
        k < ins.len(),
    ensures
        b == ids_before(ins@.map_values(|x: InputBuilder| x@), k as int).contains(ins@[k as int].id@),
{
    let ghost iv = ins@.map_values(|x: InputBuilder| x@);
    let ghost ids = ids_before(iv, k as int);
    let id = chars_of(ins[k].id.as_str());
    let mut j: usize = 0;
    while j < k
        invariant
            j <= k < ins.len(),
            iv == ins@.map_values(|x: InputBuilder| x@),
            ids == ids_before(iv, k as int),
            id@ == ins@[k as int].id@,
            forall|m: int| 0 <= m < j ==> ids[m] != id@,
        decreases k - j,
    {
        if eq_seq(&chars_of(ins[j].id.as_str()), &id) {
            assert(ids[j as int] == id@);
            return true;
        }
        j = j + 1;
    }
    false
}

fn check_input(ins: &Vec<InputBuilder>, k: usize, allowed: &Vec<Vec<char>>) -> (r: Result<
    DockerInput,
    AgentConfigError,
>)
    requires
        k < ins.len(),
        crate::text::views(allowed@) == allowed_input_fields(),
    ensures
        match r {
            Ok(d) => checked_input(ins@.map_values(|x: InputBuilder| x@), k as int) == Ok::<
                _,
                AgentError,
            >(d@),
            Err(e) => checked_input(ins@.map_values(|x: InputBuilder| x@), k as int) == Err::<
                DockerInputView,
                _,
            >(e@),
        },
{
    let x = &ins[k];
    assert(ins@.map_values(|x: InputBuilder| x@)[k as int] == x@);
    if id_taken(ins, k) {
        return Err(AgentConfigError::DuplicateInput { id: x.id.clone() });
    }
    let docker = chars_of("docker");
    let driver_ok = match &x.driver {
        Some(d) => eq_seq(&chars_of(d.as_str()), &docker),
        None => false,
    };
    if !driver_ok {
        return Err(AgentConfigError::InputDriverNotDocker { id: x.id.clone() });
    }
    let addresses = match &x.addresses {
        Some(a) => a,
        None => {
            return Err(AgentConfigError::MissingAddresses);
        },
    };
    if addresses.len() == 0 {
        return Err(AgentConfigError::NoAddress { id: x.id.clone() });
    }
    check_addresses(addresses)?;
    let fields = match &x.fields {
        Some(f) => copy_strings(f),
        None => {
            return Err(AgentConfigError::MissingFields { list: FieldList::InputFields });
        },
    };
    let fields = validate_fields_ordered(fields, allowed, FieldList::InputFields)?;
    Ok(
        DockerInput {
            id: x.id.clone(),
            addresses: copy_strings(addresses),
            projects: copy_opt_strings(&x.projects),
            services: copy_opt_strings(&x.services),
            fields,
        },
    )
}

proof fn lemma_inputs_error_persists(ins: Seq<InputBuilderView>, k: int, e: AgentError)
    requires
        0 <= k <= ins.len(),
        checked_inputs(ins, k) == Err::<Seq<DockerInputView>, _>(e),
    ensures
        checked_inputs(ins, ins.len() as int) == Err::<Seq<DockerInputView>, _>(e),
    decreases ins.len() - k,
{
    if k < ins.len() {
        lemma_inputs_error_persists(ins, k + 1, e);
    }
}

fn check_inputs(ins: &Vec<InputBuilder>) -> (r: Result<Vec<DockerInput>, AgentConfigError>)
    ensures
        match r {
            Ok(v) => checked_inputs(
                ins@.map_values(|x: InputBuilder| x@),
                ins@.len() as int,
            ) == Ok::<_, AgentError>(v@.map_values(|d: DockerInput| d@)),
            Err(e) => checked_inputs(
                ins@.map_values(|x: InputBuilder| x@),
                ins@.len() as int,
            ) == Err::<Seq<DockerInputView>, _>(e@),
        },
{
    let ghost iv = ins@.map_values(|x: InputBuilder| x@);
    let allowed = allowed_input_field_names();
    let mut out: Vec<DockerInput> = Vec::new();
    let mut k: usize = 0;
    assert(out@.map_values(|d: DockerInput| d@) =~= Seq::<DockerInputView>::empty());
    while k < ins.len()
        invariant
            k <= ins.len(),
            iv == ins@.map_values(|x: InputBuilder| x@),
            iv.len() == ins@.len(),
            crate::text::views(allowed@) == allowed_input_fields(),
            checked_inputs(iv, k as int) == Ok::<_, AgentError>(
                out@.map_values(|d: DockerInput| d@),
            ),
        decreases ins.len() - k,
    {
        match check_input(ins, k, &allowed) {
            Ok(d) => {
                let ghost before = out@.map_values(|d: DockerInput| d@);
                out.push(d);
                assert(out@.map_values(|d: DockerInput| d@) =~= before.push(d@));
            },
            Err(e) => {
                proof {
                    lemma_inputs_error_persists(iv, k + 1, e@);
                }
                return Err(e);
            },
        }
        k = k + 1;
    }
    Ok(out)
}

fn trim_trailing_slashes(s: &String) -> (r: String)
    ensures
        r@ == without_trailing_slashes(s@),
{
    let v = chars_of(s.as_str());
    let mut end = v.len();
    assert(v@.subrange(0, end as int) =~= v@);
    while end > 0 && v[end - 1] == '/'
        invariant
            end <= v.len(),
            without_trailing_slashes(v@) == without_trailing_slashes(v@.subrange(0, end as int)),
        decreases end,
    {
        assert(v@.subrange(0, end as int).drop_last() =~= v@.subrange(0, end - 1));
        end = end - 1;
    }
    string_of(&crate::text::slice_of(&v, 0, end))
}

fn check_output(o: &OutputBuilder, env: &Vec<(String, String)>) -> (r: Result<
    InfraBotOutput,
    AgentConfigError,
>)
    ensures
        match r {
            Ok(x) => checked_output(o@, env@) == Ok::<_, AgentError>(x@),
            Err(e) => checked_output(o@, env@) == Err::<InfraBotOutputView, _>(e@),
        },
{
    let infrabot = chars_of("infrabot");
    let driver_ok = match &o.driver {
        Some(d) => eq_seq(&chars_of(d.as_str()), &infrabot),
        None => false,
    };
    if !driver_ok {
        return Err(AgentConfigError::OutputDriverNotInfrabot { id: o.id.clone() });
    }
    let endpoint = resolve_required(&o.endpoint, Setting::OutputEndpoint, env)?;
    validate_private_or_https_url(endpoint.as_str(), UrlSetting::OutputEndpoint)?;
    let source = match &o.source {
        Some(s) => s.clone(),
        None => {
            return Err(AgentConfigError::MissingSource);
        },
    };
    if !validate_identifier(&chars_of(source.as_str())) {
        return Err(AgentConfigError::InvalidIdentifier { kind: IdentifierKind::OutputSource });
    }
    let credential = resolve_required(&o.credential, Setting::OutputCredential, env)?;
    let cv = chars_of(credential.as_str());
    if !(cv.len() > 0 && cv[0] == '/') {
        return Err(AgentConfigError::CredentialNotAbsolute);
    }
    let events = match &o.events {
        Some(e) => distinct_strings(e),
        None => {
            return Err(AgentConfigError::MissingEvents);
        },
    };
    if events.len() == 0 {
        proof {
            lemma_distinct_in_order(strs(o.events->0@));
        }
        return Err(AgentConfigError::NoEvents { id: o.id.clone() });
    }
    proof {
        lemma_distinct_in_order(strs(o.events->0@));
    }
    let fields = match &o.fields {
        Some(f) => copy_strings(f),
        None => {
            return Err(AgentConfigError::MissingFields { list: FieldList::OutputFields });
        },
    };
    let allowed = allowed_output_field_names();
    let fields = validate_fields_ordered(fields, &allowed, FieldList::OutputFields)?;
    Ok(
        InfraBotOutput {
            id: o.id.clone(),
            endpoint: trim_trailing_slashes(&endpoint),
            source,
            credential,
            events,
            fields,
        },
    )
}

/// Checks the `agent` block as written and builds the agent configuration;
/// `env` holds the environment variables as name/value pairs.
pub fn build_config(builder: AgentBuilder, env: &Vec<(String, String)>) -> (r: Result<
    AgentConfig,
    AgentConfigError,
>)
    ensures
        match r {
            Ok(c) => agent_configuration(builder@, env@) == Ok::<_, AgentError>(c@),
            Err(e) => agent_configuration(builder@, env@) == Err::<AgentConfigView, _>(e@),
        },
{
    let poll = match builder.poll_interval_seconds {
        Some(p) => p,
        None => 15,
    };
    if poll < 5 || poll > 3600 {
        return Err(AgentConfigError::PollIntervalOutOfRange);
    }
    let health_bind = resolve_or(&builder.health_bind, "0.0.0.0:9090", Setting::HealthBind, env)?;
    if !is_socket_address(&chars_of(health_bind.as_str())) {
        return Err(AgentConfigError::InvalidHealthBind);
    }
    let state_file = resolve_or(
        &builder.state_file,
        "/var/lib/infra/state.json",
        Setting::StateFile,
        env,
    )?;
    let sv = chars_of(state_file.as_str());
    if !(sv.len() > 0 && sv[0] == '/') {
        return Err(AgentConfigError::StateFileNotAbsolute);
    }
    let inputs = check_inputs(&builder.inputs)?;
    if inputs.len() == 0 {
        return Err(AgentConfigError::NoInputs);
    }
    if builder.outputs.len() != 1 {
        return Err(AgentConfigError::OutputCount);
    }
    assert(builder@.outputs[0] == builder.outputs@[0]@);
    let output = check_output(&builder.outputs[0], env)?;
    Ok(AgentConfig { poll_interval_seconds: poll, health_bind, state_file, inputs, output })
}

/// Reads and checks the `agent` block of a `.infra` document.
pub fn parse_document(input: &str, env: &Vec<(String, String)>) -> (r: Result<
    AgentConfig,
    AgentConfigError,
>)
    ensures
        match r {
            Ok(c) => agent_document(input@, env@) == Ok::<_, AgentError>(c@),
            Err(e) => agent_document(input@, env@) == Err::<AgentConfigView, _>(e@),
        },
{
    let builder = parse_agent_settings(input)?;
    build_config(builder, env)
}

} // verus!
