//! Why an `agent` block of a `.infra` file is rejected.
use vstd::prelude::*;

verus! {

/// A setting of the `agent` block whose value may come from the environment.
#[derive(Debug, Clone, Copy, PartialEq, Eq)]
pub enum Setting {
    HealthBind,
    StateFile,
    OutputEndpoint,
    OutputCredential,
}

/// A field that may be set once in an `agent`, `input` or `output` block.
#[derive(Debug, Clone, Copy, PartialEq, Eq)]
pub enum AgentField {
    PollIntervalSeconds,
    HealthBind,
    StateFile,
    Driver,
    Addresses,
    Projects,
    Services,
    Fields,
    Endpoint,
    Source,
    Credential,
    Events,
}

/// The three kinds of block of the agent contract.
#[derive(Debug, Clone, Copy, PartialEq, Eq)]
pub enum BlockKind {
    Agent,
    Input,
    Output,
}

/// The two field lists that an agent declares.
#[derive(Debug, Clone, Copy, PartialEq, Eq)]
pub enum FieldList {
    InputFields,
    OutputFields,
}

/// The settings that hold a URL.
#[derive(Debug, Clone, Copy, PartialEq, Eq)]
pub enum UrlSetting {
    InputAddress,
    OutputEndpoint,
}

/// The values that must be identifiers.
#[derive(Debug, Clone, Copy, PartialEq, Eq)]
pub enum IdentifierKind {
    Input,
    Output,
    OutputSource,
}

/// Why an `agent` block is rejected; `line` is the 1-based line of the file.
#[derive(Debug, Clone, PartialEq, Eq)]
pub enum AgentConfigError {
    MissingAgentBlock,
    ExpectedAssignment { line: usize },
    IncompleteAssignment { line: usize },
    ExpectedQuotedString { line: usize },
    InvalidEnvironmentReference { line: usize },
    ExpectedStringList { line: usize },
    ExpectedUnsignedInteger { line: usize },
    DuplicateField { line: usize, field: AgentField },
    UnknownField { line: usize, block: BlockKind, key: String },
    BlockNotClosed { block: BlockKind },
    InvalidIdentifier { kind: IdentifierKind },
    PollIntervalOutOfRange,
    InvalidHealthBind,
    StateFileNotAbsolute,
    DuplicateInput { id: String },
    InputDriverNotDocker { id: String },
    MissingAddresses,
    NoAddress { id: String },
    InvalidUrl { setting: UrlSetting },
    UrlHasCredentials { setting: UrlSetting },
    UrlHasQueryOrFragment { setting: UrlSetting },
    UrlWithoutHost { setting: UrlSetting },
    UrlNotPrivate { setting: UrlSetting },
    MissingFields { list: FieldList },
    EmptyFields { list: FieldList },
    UnknownFieldName { list: FieldList, name: String },
    DuplicateFieldName { list: FieldList, name: String },
    NoInputs,
    OutputCount,
    OutputDriverNotInfrabot { id: String },
    MissingSetting { setting: Setting },
    MissingEnvironmentValue { setting: Setting, variable: String },
    MissingSource,
    CredentialNotAbsolute,
    MissingEvents,
    NoEvents { id: String },
}

/// `AgentConfigError` with its text taken by view.
pub enum AgentError {
    MissingAgentBlock,
    ExpectedAssignment { line: nat },
    IncompleteAssignment { line: nat },
    ExpectedQuotedString { line: nat },
    InvalidEnvironmentReference { line: nat },
    ExpectedStringList { line: nat },
    ExpectedUnsignedInteger { line: nat },
    DuplicateField { line: nat, field: AgentField },
    UnknownField { line: nat, block: BlockKind, key: Seq<char> },
    BlockNotClosed { block: BlockKind },
    InvalidIdentifier { kind: IdentifierKind },
    PollIntervalOutOfRange,
    InvalidHealthBind,
    StateFileNotAbsolute,
    DuplicateInput { id: Seq<char> },
    InputDriverNotDocker { id: Seq<char> },
    MissingAddresses,
    NoAddress { id: Seq<char> },
    InvalidUrl { setting: UrlSetting },
    UrlHasCredentials { setting: UrlSetting },
    UrlHasQueryOrFragment { setting: UrlSetting },
    UrlWithoutHost { setting: UrlSetting },
    UrlNotPrivate { setting: UrlSetting },
    MissingFields { list: FieldList },
    EmptyFields { list: FieldList },
    UnknownFieldName { list: FieldList, name: Seq<char> },
    DuplicateFieldName { list: FieldList, name: Seq<char> },
    NoInputs,
    OutputCount,
    OutputDriverNotInfrabot { id: Seq<char> },
    MissingSetting { setting: Setting },
    MissingEnvironmentValue { setting: Setting, variable: Seq<char> },
    MissingSource,
    CredentialNotAbsolute,
    MissingEvents,
    NoEvents { id: Seq<char> },
}

impl View for AgentConfigError {
    type V = AgentError;

    open spec fn view(&self) -> AgentError {
        match self {
            AgentConfigError::MissingAgentBlock => AgentError::MissingAgentBlock,
            AgentConfigError::ExpectedAssignment { line } => AgentError::ExpectedAssignment {
                line: *line as nat,
            },
            AgentConfigError::IncompleteAssignment { line } => AgentError::IncompleteAssignment {
                line: *line as nat,
            },
            AgentConfigError::ExpectedQuotedString { line } => AgentError::ExpectedQuotedString {
                line: *line as nat,
            },
            AgentConfigError::InvalidEnvironmentReference {
                line,
            } => AgentError::InvalidEnvironmentReference { line: *line as nat },
            AgentConfigError::ExpectedStringList { line } => AgentError::ExpectedStringList {
                line: *line as nat,
            },
            AgentConfigError::ExpectedUnsignedInteger {
                line,
            } => AgentError::ExpectedUnsignedInteger { line: *line as nat },
            AgentConfigError::DuplicateField { line, field } => AgentError::DuplicateField {
                line: *line as nat,
                field: *field,
            },
            AgentConfigError::UnknownField { line, block, key } => AgentError::UnknownField {
                line: *line as nat,
                block: *block,
                key: key@,
            },
            AgentConfigError::BlockNotClosed { block } => AgentError::BlockNotClosed {
                block: *block,
            },
            AgentConfigError::InvalidIdentifier { kind } => AgentError::InvalidIdentifier {
                kind: *kind,
            },
            AgentConfigError::PollIntervalOutOfRange => AgentError::PollIntervalOutOfRange,
            AgentConfigError::InvalidHealthBind => AgentError::InvalidHealthBind,
            AgentConfigError::StateFileNotAbsolute => AgentError::StateFileNotAbsolute,
            AgentConfigError::DuplicateInput { id } => AgentError::DuplicateInput { id: id@ },
            AgentConfigError::InputDriverNotDocker { id } => AgentError::InputDriverNotDocker {
                id: id@,
            },
            AgentConfigError::MissingAddresses => AgentError::MissingAddresses,
            AgentConfigError::NoAddress { id } => AgentError::NoAddress { id: id@ },
            AgentConfigError::InvalidUrl { setting } => AgentError::InvalidUrl {
                setting: *setting,
            },
            AgentConfigError::UrlHasCredentials { setting } => AgentError::UrlHasCredentials {
                setting: *setting,
            },
            AgentConfigError::UrlHasQueryOrFragment {
                setting,
            } => AgentError::UrlHasQueryOrFragment { setting: *setting },
            AgentConfigError::UrlWithoutHost { setting } => AgentError::UrlWithoutHost {
                setting: *setting,
            },
            AgentConfigError::UrlNotPrivate { setting } => AgentError::UrlNotPrivate {
                setting: *setting,
            },
            AgentConfigError::MissingFields { list } => AgentError::MissingFields { list: *list },
            AgentConfigError::EmptyFields { list } => AgentError::EmptyFields { list: *list },
            AgentConfigError::UnknownFieldName { list, name } => AgentError::UnknownFieldName {
                list: *list,
                name: name@,
            },
            AgentConfigError::DuplicateFieldName { list, name } => AgentError::DuplicateFieldName {
                list: *list,
                name: name@,
            },
            AgentConfigError::NoInputs => AgentError::NoInputs,
            AgentConfigError::OutputCount => AgentError::OutputCount,
            AgentConfigError::OutputDriverNotInfrabot {
                id,
            } => AgentError::OutputDriverNotInfrabot { id: id@ },
            AgentConfigError::MissingSetting { setting } => AgentError::MissingSetting {
                setting: *setting,
            },
            AgentConfigError::MissingEnvironmentValue {
                setting,
                variable,
            } => AgentError::MissingEnvironmentValue { setting: *setting, variable: variable@ },
            AgentConfigError::MissingSource => AgentError::MissingSource,
            AgentConfigError::CredentialNotAbsolute => AgentError::CredentialNotAbsolute,
            AgentConfigError::MissingEvents => AgentError::MissingEvents,
            AgentConfigError::NoEvents { id } => AgentError::NoEvents { id: id@ },
        }
    }
}

} // verus!
