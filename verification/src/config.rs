//! The project configuration stored in a `.infra` file: where the file lives,
//! how the generated core is rendered and read back, and how application-owned
//! blocks after the core are kept.
use crate::text::{
    chars_of, decimal, decimal_chars, eq_seq, find_char, find_from, find_seq, first_index,
    has_prefix, last_index, lemma_first_index, lemma_last_index, parse_unsigned, push_char,
    push_chars, push_str, rfind_char, slice_of, split_lines, starts_with, string_of, trim,
    lines, trim_bounds, trimmed, unsigned_value, views,
};
use vstd::prelude::*;

verus! {

/// Why a `.infra` file could not be read as a project configuration.
#[derive(Debug, Clone, Copy, PartialEq, Eq)]
pub enum ConfigError {
    MissingProjectBlock,
    ProjectBlockWithoutBrace,
    UnmatchedClosingBrace,
    ProjectBlockNotClosed,
    InvalidVersion,
    InvalidPort,
    MissingVersion,
    MissingProject,
    MissingRuntime,
    MissingService,
    MissingSource,
    MissingBuildFile,
    MissingPort,
    MissingHealthPath,
}

/// The location of a `.infra` file.
#[derive(Debug, Clone, PartialEq, Eq)]
pub struct ConfigPath(String);

impl View for ConfigPath {
    type V = Seq<char>;

    closed spec fn view(&self) -> Seq<char> {
        self.0@
    }
}

/// The one service of a project.
#[derive(Debug, Clone, PartialEq, Eq)]
pub struct ServiceConfig {
    pub name: String,
    pub source: String,
    pub build_file: String,
    pub port: u16,
    pub health_path: String,
    pub environment: Option<String>,
}

/// The generated core of a `.infra` file plus the application-owned text after it.
#[derive(Debug, Clone, PartialEq, Eq)]
pub struct ProjectConfig {
    pub version: u8,
    pub project: String,
    pub runtime: String,
    pub service: ServiceConfig,
    pub extensions: String,
}

pub struct ServiceConfigView {
    pub name: Seq<char>,
    pub source: Seq<char>,
    pub build_file: Seq<char>,
    pub port: nat,
    pub health_path: Seq<char>,
    pub environment: Option<Seq<char>>,
}

pub struct ProjectConfigView {
    pub version: nat,
    pub project: Seq<char>,
    pub runtime: Seq<char>,
    pub service: ServiceConfigView,
    pub extensions: Seq<char>,
}

pub open spec fn opt_view(o: Option<String>) -> Option<Seq<char>> {
    match o {
        Some(s) => Some(s@),
        None => None,
    }
}

impl View for ServiceConfig {
    type V = ServiceConfigView;

    open spec fn view(&self) -> ServiceConfigView {
        ServiceConfigView {
            name: self.name@,
            source: self.source@,
            build_file: self.build_file@,
            port: self.port as nat,
            health_path: self.health_path@,
            environment: opt_view(self.environment),
        }
    }
}

impl View for ProjectConfig {
    type V = ProjectConfigView;

    open spec fn view(&self) -> ProjectConfigView {
        ProjectConfigView {
            version: self.version as nat,
            project: self.project@,
            runtime: self.runtime@,
            service: self.service@,
            extensions: self.extensions@,
        }
    }
}

/// `.infra` as a file name.
pub open spec fn infra_file_name() -> Seq<char> {
    seq!['.', 'i', 'n', 'f', 'r', 'a']
}

/// `infra` as an extension.
pub open spec fn infra_extension() -> Seq<char> {
    seq!['i', 'n', 'f', 'r', 'a']
}

/// The final component of a path when it is a normal name (`Path::file_name`):
/// trailing separators and `.` components are skipped; `..`, a leading `.`, the
/// root and the empty path have none.
pub open spec fn file_name(p: Seq<char>) -> Option<Seq<char>>
    decreases p.len(),
{
    if p.len() == 0 {
        None
    } else if p.last() == '/' {
        file_name(p.drop_last())
    } else {
        let k = last_index(p, '/');
        let seg = match k {
            Some(k) => p.subrange(k + 1, p.len() as int),
            None => p,
        };
        if seg == seq!['.'] {
            match k {
                Some(k) => {
                    proof {
                        lemma_last_index(p, '/');
                    }
                    file_name(p.subrange(0, k + 1))
                },
                None => None,
            }
        } else if seg == seq!['.', '.'] {
            None
        } else {
            Some(seg)
        }
    }
}

/// The extension of a path (`Path::extension`): what follows the last `.` of the
/// file name, unless that `.` is its first character.
pub open spec fn extension(p: Seq<char>) -> Option<Seq<char>> {
    match file_name(p) {
        Some(f) => match last_index(f, '.') {
            Some(k) => if k > 0 {
                Some(f.subrange(k + 1, f.len() as int))
            } else {
                None
            },
            None => None,
        },
        None => None,
    }
}

/// `p` joined with the relative name `x` (`Path::join`).
pub open spec fn join(p: Seq<char>, x: Seq<char>) -> Seq<char> {
    if p.len() > 0 && p.last() != '/' {
        p.push('/') + x
    } else {
        p + x
    }
}

/// Where `infra` looks for the configuration given an optional path: a `.infra`
/// or `*.infra` file name is kept, anything else is a directory holding `.infra`.
pub open spec fn resolved_path(p: Seq<char>) -> Seq<char> {
    if file_name(p) == Some(infra_file_name()) || extension(p) == Some(infra_extension()) {
        p
    } else {
        join(p, infra_file_name())
    }
}

/// The bounds of the file name of `p`.
fn file_name_bounds(p: &Vec<char>) -> (r: Option<(usize, usize)>)
    ensures
        r matches Some(b) ==> b.0 <= b.1 <= p@.len() && file_name(p@) == Some(
            p@.subrange(b.0 as int, b.1 as int),
        ),
        r is None ==> file_name(p@) is None,
{
    let dot = vec!['.'];
    let dotdot = vec!['.', '.'];
    let mut end = p.len();
    assert(p@.subrange(0, end as int) =~= p@);
    loop
        invariant
            end <= p.len(),
            file_name(p@) == file_name(p@.subrange(0, end as int)),
            dot@ == seq!['.'],
            dotdot@ == seq!['.', '.'],
        decreases end,
    {
        let ghost q = p@.subrange(0, end as int);
        if end == 0 {
            return None;
        }
        if p[end - 1] == '/' {
            assert(q.drop_last() =~= p@.subrange(0, end - 1));
            end = end - 1;
        } else {
            let k = rfind_char(p, end, '/');
            proof {
                lemma_last_index(q, '/');
            }
            let start = match k {
                Some(k) => k + 1,
                None => 0,
            };
            let seg = slice_of(p, start, end);
            assert(seg@ == match last_index(q, '/') {
                Some(k) => q.subrange(k + 1, q.len() as int),
                None => q,
            }) by {
                assert(q.subrange(start as int, q.len() as int) =~= seg@);
                if start == 0 {
                    assert(q =~= seg@);
                }
            }
            if eq_seq(&seg, &dot) {
                match k {
                    Some(k) => {
                        assert(q.subrange(0, k + 1) =~= p@.subrange(0, k + 1));
                        end = k + 1;
                    },
                    None => {
                        return None;
                    },
                }
            } else if eq_seq(&seg, &dotdot) {
                return None;
            } else {
                return Some((start, end));
            }
        }
    }
}

/// Whether `p` already names a `.infra` or `*.infra` file.
fn names_infra_file(p: &Vec<char>) -> (b: bool)
    ensures
        b == (file_name(p@) == Some(infra_file_name()) || extension(p@) == Some(
            infra_extension(),
        )),
{
    let name = infra_name_chars();
    let ext = infra_extension_chars();
    match file_name_bounds(p) {
        Some((a, b)) => {
            let f = slice_of(p, a, b);
            if eq_seq(&f, &name) {
                return true;
            }
            assert(f@.subrange(0, f@.len() as int) =~= f@);
            proof {
                lemma_last_index(f@, '.');
            }
            match rfind_char(&f, f.len(), '.') {
                Some(k) => {
                    if k > 0 {
                        let e = slice_of(&f, k + 1, f.len());
                        eq_seq(&e, &ext)
                    } else {
                        false
                    }
                },
                None => false,
            }
        },
        None => false,
    }
}

fn infra_extension_chars() -> (r: Vec<char>)
    ensures
        r@ == infra_extension(),
{
    vec!['i', 'n', 'f', 'r', 'a']
}

impl ConfigPath {
    /// Resolves an optional path given on the command line; no path means the
    /// current directory.
    pub fn resolve(path: Option<&str>) -> (r: Result<ConfigPath, ConfigError>)
        ensures
            r matches Ok(c) && c@ == resolved_path(
                match path {
                    Some(p) => p@,
                    None => seq!['.'],
                },
            ),
    {
        let p: Vec<char> = match path {
            Some(p) => chars_of(p),
            None => vec!['.'],
        };
        assert(p@ =~= match path {
            Some(q) => q@,
            None => seq!['.'],
        });
        let keep = names_infra_file(&p);
        let name = infra_name_chars();
        let mut out = string_of(&p);
        if !keep {
            if p.len() > 0 && p[p.len() - 1] != '/' {
                push_char(&mut out, '/');
            }
            push_chars(&mut out, &name);
        }
        proof {
            if !keep {
                if p@.len() > 0 && p@.last() != '/' {
                    assert(out@ =~= p@.push('/') + infra_file_name());
                } else {
                    assert(out@ =~= p@ + infra_file_name());
                }
            }
            assert(out@ == resolved_path(p@));
        }
        Ok(ConfigPath(out))
    }

    /// The path as text.
    pub fn display(&self) -> (r: String)
        ensures
            r@ == self@,
    {
        self.0.clone()
    }

    /// The path as a string slice.
    pub fn as_ref(&self) -> (r: &str)
        ensures
            r@ == self@,
    {
        self.0.as_str()
    }
}

impl Default for ConfigPath {
    fn default() -> (r: ConfigPath)
        ensures
            r@ == seq!['.', '/', '.', 'i', 'n', 'f', 'r', 'a'],
    {
        let mut s = String::new();
        push_char(&mut s, '.');
        push_char(&mut s, '/');
        let n = infra_name_chars();
        push_chars(&mut s, &n);
        assert(s@ =~= seq!['.', '/', '.', 'i', 'n', 'f', 'r', 'a']);
        ConfigPath(s)
    }
}

fn infra_name_chars() -> (r: Vec<char>)
    ensures
        r@ == infra_file_name(),
{
    vec!['.', 'i', 'n', 'f', 'r', 'a']
}


/// `v` between double quotes.
pub open spec fn in_quotes(v: Seq<char>) -> Seq<char> {
    seq!['"'] + v + seq!['"']
}

/// The lines, each followed by a line feed.
pub open spec fn joined(ls: Seq<Seq<char>>) -> Seq<char>
    decreases ls.len(),
{
    if ls.len() == 0 {
        seq![]
    } else {
        ls[0] + seq!['\n'] + joined(ls.drop_first())
    }
}

/// The `environment` line of the service block, when there is one.
pub open spec fn environment_lines(e: Option<Seq<char>>) -> Seq<Seq<char>> {
    match e {
        Some(v) => seq!["        environment = "@ + in_quotes(v)],
        None => seq![],
    }
}

/// The lines of the generated core: the version line and the `project` block.
pub open spec fn core_lines(c: ProjectConfigView) -> Seq<Seq<char>> {
    seq![
        "infra "@ + decimal(c.version),
        seq![],
        "project "@ + in_quotes(c.project) + " {"@,
        "    runtime = "@ + in_quotes(c.runtime),
        seq![],
        "    service "@ + in_quotes(c.service.name) + " {"@,
        "        source = "@ + in_quotes(c.service.source),
        "        build = "@ + in_quotes(c.service.build_file),
        "        expose = "@ + decimal(c.service.port),
        "        health = "@ + in_quotes(c.service.health_path),
    ] + environment_lines(c.service.environment) + seq!["    }"@, "}"@]
}

/// The generated core.
pub open spec fn rendered_core(c: ProjectConfigView) -> Seq<char> {
    joined(core_lines(c))
}

/// Appending one line appends it and a line feed.
pub proof fn lemma_joined_push(ls: Seq<Seq<char>>, l: Seq<char>)
    ensures
        joined(ls.push(l)) == joined(ls) + l + seq!['\n'],
    decreases ls.len(),
{
    if ls.len() == 0 {
        assert(ls.push(l).drop_first() =~= Seq::<Seq<char>>::empty());
        assert(ls.push(l)[0] == l);
        assert(joined(ls.push(l).drop_first()) == Seq::<char>::empty());
        assert(joined(ls) == Seq::<char>::empty());
        assert(joined(ls.push(l)) =~= joined(ls) + l + seq!['\n']);
    } else {
        assert(ls.push(l).drop_first() =~= ls.drop_first().push(l));
        lemma_joined_push(ls.drop_first(), l);
        assert(ls.push(l)[0] == ls[0]);
        assert(joined(ls.push(l)) == ls[0] + seq!['\n'] + joined(ls.drop_first().push(l)));
        assert(joined(ls.push(l)) =~= joined(ls) + l + seq!['\n']);
    }
}

/// The whole file: the core, then the trimmed extensions after a blank line.
pub open spec fn rendered(c: ProjectConfigView) -> Seq<char> {
    let ext = trim(c.extensions);
    if ext.len() == 0 {
        rendered_core(c)
    } else {
        rendered_core(c) + "\n"@ + ext + "\n"@
    }
}

/// Where the brace scan that starts at `i` closes the project block.
pub open spec fn close_index(s: Seq<char>, i: int, depth: nat, in_string: bool, escaped: bool) -> Result<
    int,
    ConfigError,
>
    decreases s.len() - i,
{
    if i < 0 || i >= s.len() {
        Err(ConfigError::ProjectBlockNotClosed)
    } else {
        let c = s[i];
        if in_string {
            if escaped {
                close_index(s, i + 1, depth, true, false)
            } else if c == '\\' {
                close_index(s, i + 1, depth, true, true)
            } else if c == '"' {
                close_index(s, i + 1, depth, false, false)
            } else {
                close_index(s, i + 1, depth, true, false)
            }
        } else if c == '"' {
            close_index(s, i + 1, depth, true, escaped)
        } else if c == '{' {
            close_index(
                s,
                i + 1,
                if depth < 0xffff_ffff {
                    depth + 1
                } else {
                    depth
                },
                false,
                escaped,
            )
        } else if c == '}' {
            if depth == 0 {
                Err(ConfigError::UnmatchedClosingBrace)
            } else if depth == 1 {
                Ok(i + 1)
            } else {
                close_index(s, i + 1, (depth - 1) as nat, false, escaped)
            }
        } else {
            close_index(s, i + 1, depth, false, escaped)
        }
    }
}

/// Where the generated core ends: just after the brace that closes the first
/// `project "` block.
pub open spec fn core_end(s: Seq<char>) -> Result<int, ConfigError> {
    match find_from(s, "project \""@, 0) {
        None => Err(ConfigError::MissingProjectBlock),
        Some(ps) => {
            let k = first_index(s.subrange(ps, s.len() as int), '{');
            if ps + k >= s.len() {
                Err(ConfigError::ProjectBlockWithoutBrace)
            } else {
                close_index(s, ps + k, 0, false, false)
            }
        },
    }
}

/// The generated core and the trimmed application-owned text after it.
pub open spec fn core_and_extensions(s: Seq<char>) -> Result<(Seq<char>, Seq<char>), ConfigError> {
    match core_end(s) {
        Ok(e) => Ok((s.subrange(0, e), trim(s.subrange(e, s.len() as int)))),
        Err(err) => Err(err),
    }
}

/// The text between the first two double quotes of a line.
pub open spec fn first_quoted(l: Seq<char>) -> Option<Seq<char>> {
    let i = first_index(l, '"');
    if i >= l.len() {
        None
    } else {
        let rest = l.subrange(i + 1, l.len() as int);
        let j = first_index(rest, '"');
        if j >= rest.len() {
            None
        } else {
            Some(rest.subrange(0, j))
        }
    }
}

/// The fields collected while reading the generated core.
pub struct GeneratedFields {
    pub version: Option<nat>,
    pub project: Option<Seq<char>>,
    pub runtime: Option<Seq<char>>,
    pub service: Option<Seq<char>>,
    pub source: Option<Seq<char>>,
    pub build_file: Option<Seq<char>>,
    pub port: Option<nat>,
    pub health_path: Option<Seq<char>>,
    pub environment: Option<Seq<char>>,
}

pub open spec fn no_fields() -> GeneratedFields {
    GeneratedFields {
        version: None,
        project: None,
        runtime: None,
        service: None,
        source: None,
        build_file: None,
        port: None,
        health_path: None,
        environment: None,
    }
}

pub open spec fn after(l: Seq<char>, p: Seq<char>) -> Seq<char> {
    l.subrange(p.len() as int, l.len() as int)
}

/// What one trimmed line of the core contributes; the first matching prefix wins.
pub open spec fn absorb_line(st: GeneratedFields, l: Seq<char>) -> Result<GeneratedFields, ConfigError> {
    if has_prefix(l, "infra "@) {
        match unsigned_value(after(l, "infra "@), 255) {
            Some(v) => Ok(GeneratedFields { version: Some(v), ..st }),
            None => Err(ConfigError::InvalidVersion),
        }
    } else if has_prefix(l, "project "@) {
        Ok(GeneratedFields { project: first_quoted(l), ..st })
    } else if has_prefix(l, "runtime ="@) {
        Ok(GeneratedFields { runtime: first_quoted(l), ..st })
    } else if has_prefix(l, "service "@) {
        Ok(GeneratedFields { service: first_quoted(l), ..st })
    } else if has_prefix(l, "source ="@) {
        Ok(GeneratedFields { source: first_quoted(l), ..st })
    } else if has_prefix(l, "build ="@) {
        Ok(GeneratedFields { build_file: first_quoted(l), ..st })
    } else if has_prefix(l, "expose = "@) {
        match unsigned_value(after(l, "expose = "@), 65535) {
            Some(v) => Ok(GeneratedFields { port: Some(v), ..st }),
            None => Err(ConfigError::InvalidPort),
        }
    } else if has_prefix(l, "health ="@) {
        Ok(GeneratedFields { health_path: first_quoted(l), ..st })
    } else if has_prefix(l, "environment ="@) {
        Ok(GeneratedFields { environment: first_quoted(l), ..st })
    } else {
        Ok(st)
    }
}

/// The fields after reading the given lines, each trimmed, in order.
pub open spec fn absorb_lines(ls: Seq<Seq<char>>) -> Result<GeneratedFields, ConfigError>
    decreases ls.len(),
{
    if ls.len() == 0 {
        Ok(no_fields())
    } else {
        match absorb_lines(ls.drop_last()) {
            Ok(st) => absorb_line(st, trim(ls.last())),
            Err(e) => Err(e),
        }
    }
}

/// Once a line is rejected, the whole read is rejected with that error.
proof fn lemma_absorb_error_persists(ls: Seq<Seq<char>>, k: int, e: ConfigError)
    requires
        0 <= k <= ls.len(),
        absorb_lines(ls.take(k)) == Err::<GeneratedFields, _>(e),
    ensures
        absorb_lines(ls) == Err::<GeneratedFields, _>(e),
    decreases ls.len() - k,
{
    if k < ls.len() {
        assert(ls.take(k + 1).drop_last() =~= ls.take(k));
        lemma_absorb_error_persists(ls, k + 1, e);
    } else {
        assert(ls.take(k) =~= ls);
    }
}

/// The configuration once every required field is present, or the first missing one.
pub open spec fn assemble(st: GeneratedFields, extensions: Seq<char>) -> Result<
    ProjectConfigView,
    ConfigError,
> {
    if st.version is None {
        Err(ConfigError::MissingVersion)
    } else if st.project is None {
        Err(ConfigError::MissingProject)
    } else if st.runtime is None {
        Err(ConfigError::MissingRuntime)
    } else if st.service is None {
        Err(ConfigError::MissingService)
    } else if st.source is None {
        Err(ConfigError::MissingSource)
    } else if st.build_file is None {
        Err(ConfigError::MissingBuildFile)
    } else if st.port is None {
        Err(ConfigError::MissingPort)
    } else if st.health_path is None {
        Err(ConfigError::MissingHealthPath)
    } else {
        Ok(
            ProjectConfigView {
                version: st.version->0,
                project: st.project->0,
                runtime: st.runtime->0,
                service: ServiceConfigView {
                    name: st.service->0,
                    source: st.source->0,
                    build_file: st.build_file->0,
                    port: st.port->0,
                    health_path: st.health_path->0,
                    environment: st.environment,
                },
                extensions,
            },
        )
    }
}

/// What reading a `.infra` file yields.
pub open spec fn generated_config(s: Seq<char>) -> Result<ProjectConfigView, ConfigError> {
    match core_and_extensions(s) {
        Err(e) => Err(e),
        Ok((core, ext)) => match absorb_lines(lines(core)) {
            Err(e) => Err(e),
            Ok(st) => assemble(st, ext),
        },
    }
}

/// The text that replaces a file holding `existing` (if it exists): the
/// configuration keeps the existing extensions when it has none of its own.
pub open spec fn replacement(c: ProjectConfigView, existing: Option<Seq<char>>) -> Result<
    Seq<char>,
    ConfigError,
> {
    match existing {
        Some(x) if trim(c.extensions).len() == 0 => match core_and_extensions(x) {
            Ok((_, ext)) => Ok(rendered(ProjectConfigView { extensions: ext, ..c })),
            Err(e) => Err(e),
        },
        _ => Ok(rendered(c)),
    }
}

impl ProjectConfig {
    /// The `.infra` text for this configuration.
    pub fn render(&self) -> (r: String)
        ensures
            r@ == rendered(self@),
    {
        let ghost mut ls: Seq<Seq<char>> = seq![];
        let mut r = String::new();
        let mut l = "infra ".to_owned();
        push_chars(&mut l, &decimal_chars(self.version as u64));
        push_line(&mut r, &l, Ghost(ls));
        proof { ls = ls.push(l@); }
        push_line(&mut r, &String::new(), Ghost(ls));
        proof { ls = ls.push(seq![]); }
        let l = block_line("project ", self.project.as_str());
        push_line(&mut r, &l, Ghost(ls));
        proof { ls = ls.push(l@); }
        let l = quoted_line("    runtime = ", self.runtime.as_str());
        push_line(&mut r, &l, Ghost(ls));
        proof { ls = ls.push(l@); }
        push_line(&mut r, &String::new(), Ghost(ls));
        proof { ls = ls.push(seq![]); }
        let l = block_line("    service ", self.service.name.as_str());
        push_line(&mut r, &l, Ghost(ls));
        proof { ls = ls.push(l@); }
        let l = quoted_line("        source = ", self.service.source.as_str());
        push_line(&mut r, &l, Ghost(ls));
        proof { ls = ls.push(l@); }
        let l = quoted_line("        build = ", self.service.build_file.as_str());
        push_line(&mut r, &l, Ghost(ls));
        proof { ls = ls.push(l@); }
        let mut l = "        expose = ".to_owned();
        push_chars(&mut l, &decimal_chars(self.service.port as u64));
        push_line(&mut r, &l, Ghost(ls));
        proof { ls = ls.push(l@); }
        let l = quoted_line("        health = ", self.service.health_path.as_str());
        push_line(&mut r, &l, Ghost(ls));
        proof { ls = ls.push(l@); }
        let ghost before_env = ls;
        match &self.service.environment {
            Some(v) => {
                let l = quoted_line("        environment = ", v.as_str());
                push_line(&mut r, &l, Ghost(ls));
                proof { ls = ls.push(l@); }
            },
            None => {},
        }
        assert(ls =~= before_env + environment_lines(opt_view(self.service.environment)));
        let l = "    }".to_owned();
        push_line(&mut r, &l, Ghost(ls));
        proof { ls = ls.push(l@); }
        let l = "}".to_owned();
        push_line(&mut r, &l, Ghost(ls));
        proof { ls = ls.push(l@); }
        assert(ls =~= core_lines(self@));
        let ext = trimmed(&chars_of(self.extensions.as_str()));
        if ext.len() > 0 {
            push_str(&mut r, "\n");
            push_chars(&mut r, &ext);
            push_str(&mut r, "\n");
        }
        r
    }

    /// The text to write over an existing file: when this configuration has no
    /// extensions of its own, those of the existing file are kept.
    pub fn replacement_text(&self, existing: Option<&str>) -> (r: Result<String, ConfigError>)
        ensures
            match r {
                Ok(t) => replacement(
                    self@,
                    match existing {
                        Some(x) => Some(x@),
                        None => None,
                    },
                ) == Ok::<_, ConfigError>(t@),
                Err(e) => replacement(
                    self@,
                    match existing {
                        Some(x) => Some(x@),
                        None => None,
                    },
                ) == Err::<Seq<char>, _>(e),
            },
    {
        let own = trimmed(&chars_of(self.extensions.as_str()));
        match existing {
            Some(x) if own.len() == 0 => {
                let (_, ext) = split_core_and_extensions(x)?;
                let config = ProjectConfig {
                    version: self.version,
                    project: copy_string(&self.project),
                    runtime: copy_string(&self.runtime),
                    service: self.service.copy(),
                    extensions: ext,
                };
                Ok(config.render())
            },
            _ => Ok(self.render()),
        }
    }
}

/// Appends one line of the core and its line feed.
fn push_line(r: &mut String, l: &String, Ghost(ls): Ghost<Seq<Seq<char>>>)
    requires
        old(r)@ == joined(ls),
    ensures
        final(r)@ == joined(ls.push(l@)),
{
    push_str(r, l.as_str());
    push_char(r, '\n');
    proof {
        lemma_joined_push(ls, l@);
        assert(r@ =~= joined(ls) + l@ + seq!['\n']);
    }
}

/// `prefix "value"`.
fn quoted_line(prefix: &str, v: &str) -> (r: String)
    ensures
        r@ == prefix@ + in_quotes(v@),
{
    let mut r = prefix.to_owned();
    push_char(&mut r, '"');
    push_str(&mut r, v);
    push_char(&mut r, '"');
    assert(r@ =~= prefix@ + in_quotes(v@));
    r
}

/// `prefix "value" {`.
fn block_line(prefix: &str, v: &str) -> (r: String)
    ensures
        r@ == prefix@ + in_quotes(v@) + " {"@,
{
    let mut r = quoted_line(prefix, v);
    push_str(&mut r, " {");
    r
}

fn copy_string(s: &String) -> (r: String)
    ensures
        r@ == s@,
{
    s.clone()
}

impl ProjectConfig {
    /// A copy of this configuration.
    pub fn copy(&self) -> (r: ProjectConfig)
        ensures
            r@ == self@,
    {
        ProjectConfig {
            version: self.version,
            project: copy_string(&self.project),
            runtime: copy_string(&self.runtime),
            service: self.service.copy(),
            extensions: copy_string(&self.extensions),
        }
    }
}

impl ServiceConfig {
    /// A copy of this service configuration.
    pub fn copy(&self) -> (r: ServiceConfig)
        ensures
            r@ == self@,
    {
        ServiceConfig {
            name: copy_string(&self.name),
            source: copy_string(&self.source),
            build_file: copy_string(&self.build_file),
            port: self.port,
            health_path: copy_string(&self.health_path),
            environment: match &self.environment {
                Some(e) => Some(copy_string(e)),
                None => None,
            },
        }
    }
}

/// Splits a `.infra` file into its generated core and the trimmed text after the
/// project block.
pub fn split_core_and_extensions(input: &str) -> (r: Result<(String, String), ConfigError>)
    ensures
        match r {
            Ok((core, ext)) => core_and_extensions(input@) == Ok::<_, ConfigError>(
                (core@, ext@),
            ),
            Err(e) => core_and_extensions(input@) == Err::<(Seq<char>, Seq<char>), _>(e),
        },
{
    let s = chars_of(input);
    let marker = chars_of("project \"");
    let project_start = match find_seq(&s, &marker, 0) {
        Some(k) => k,
        None => {
            return Err(ConfigError::MissingProjectBlock);
        },
    };
    proof {
        crate::text::lemma_find_from(s@, marker@, 0);
    }
    let block_start = match find_char(&s, project_start, '{') {
        Some(k) => k,
        None => {
            return Err(ConfigError::ProjectBlockWithoutBrace);
        },
    };
    let mut depth: u32 = 0;
    let mut in_string = false;
    let mut escaped = false;
    let mut i = block_start;
    while i < s.len()
        invariant
            block_start <= i <= s.len(),
            s@ == input@,
            core_end(s@) == close_index(s@, i as int, depth as nat, in_string, escaped),
        decreases s.len() - i,
    {
        let c = s[i];
        if in_string {
            if escaped {
                escaped = false;
            } else if c == '\\' {
                escaped = true;
            } else if c == '"' {
                in_string = false;
            }
            i = i + 1;
            continue ;
        }
        if c == '"' {
            in_string = true;
        } else if c == '{' {
            depth = depth.saturating_add(1);
        } else if c == '}' {
            if depth == 0 {
                assert(close_index(s@, i as int, depth as nat, in_string, escaped) == Err::<
                    int,
                    ConfigError,
                >(ConfigError::UnmatchedClosingBrace));
                assert(core_end(input@) == Err::<int, ConfigError>(
                    ConfigError::UnmatchedClosingBrace,
                ));
                return Err(ConfigError::UnmatchedClosingBrace);
            }
            depth = depth - 1;
            if depth == 0 {
                let end = i + 1;
                let core = slice_of(&s, 0, end);
                let (a, b) = trim_bounds(&s, end, s.len());
                let ext = slice_of(&s, a, b);
                return Ok((string_of(&core), string_of(&ext)));
            }
        }
        i = i + 1;
    }
    Err(ConfigError::ProjectBlockNotClosed)
}

fn first_quoted_of(l: &Vec<char>) -> (r: Option<Vec<char>>)
    ensures
        match r {
            Some(v) => first_quoted(l@) == Some(v@),
            None => first_quoted(l@) is None,
        },
{
    let i = match find_char(l, 0, '"') {
        Some(i) => i,
        None => {
            assert(l@.subrange(0, l@.len() as int) =~= l@);
            return None;
        },
    };
    assert(l@.subrange(0, l@.len() as int) =~= l@);
    let j = match find_char(l, i + 1, '"') {
        Some(j) => j,
        None => {
            return None;
        },
    };
    let v = slice_of(l, i + 1, j);
    assert(l@.subrange(i + 1, l@.len() as int).subrange(0, j - (i + 1)) =~= v@);
    Some(v)
}

/// Exec counterpart of `GeneratedFields`.
struct Fields {
    version: Option<u8>,
    project: Option<Vec<char>>,
    runtime: Option<Vec<char>>,
    service: Option<Vec<char>>,
    source: Option<Vec<char>>,
    build_file: Option<Vec<char>>,
    port: Option<u16>,
    health_path: Option<Vec<char>>,
    environment: Option<Vec<char>>,
}

spec fn ov(o: Option<Vec<char>>) -> Option<Seq<char>> {
    match o {
        Some(v) => Some(v@),
        None => None,
    }
}

impl View for Fields {
    type V = GeneratedFields;

    closed spec fn view(&self) -> GeneratedFields {
        GeneratedFields {
            version: match self.version {
                Some(v) => Some(v as nat),
                None => None,
            },
            project: ov(self.project),
            runtime: ov(self.runtime),
            service: ov(self.service),
            source: ov(self.source),
            build_file: ov(self.build_file),
            port: match self.port {
                Some(v) => Some(v as nat),
                None => None,
            },
            health_path: ov(self.health_path),
            environment: ov(self.environment),
        }
    }
}

/// The literal prefixes that classify lines of the core.
struct Prefixes {
    infra: Vec<char>,
    project: Vec<char>,
    runtime: Vec<char>,
    service: Vec<char>,
    source: Vec<char>,
    build: Vec<char>,
    expose: Vec<char>,
    health: Vec<char>,
    environment: Vec<char>,
}

impl Prefixes {
    spec fn valid(&self) -> bool {
        &&& self.infra@ == "infra "@
        &&& self.project@ == "project "@
        &&& self.runtime@ == "runtime ="@
        &&& self.service@ == "service "@
        &&& self.source@ == "source ="@
        &&& self.build@ == "build ="@
        &&& self.expose@ == "expose = "@
        &&& self.health@ == "health ="@
        &&& self.environment@ == "environment ="@
    }

    fn new() -> (r: Prefixes)
        ensures
            r.valid(),
    {
        Prefixes {
            infra: chars_of("infra "),
            project: chars_of("project "),
            runtime: chars_of("runtime ="),
            service: chars_of("service "),
            source: chars_of("source ="),
            build: chars_of("build ="),
            expose: chars_of("expose = "),
            health: chars_of("health ="),
            environment: chars_of("environment ="),
        }
    }
}

fn absorb(f: Fields, l: &Vec<char>, p: &Prefixes) -> (r: Result<Fields, ConfigError>)
    requires
        p.valid(),
    ensures
        match r {
            Ok(g) => absorb_line(f@, l@) == Ok::<_, ConfigError>(g@),
            Err(e) => absorb_line(f@, l@) == Err::<GeneratedFields, _>(e),
        },
{
    let mut f = f;
    if starts_with(l, &p.infra) {
        let rest = slice_of(l, p.infra.len(), l.len());
        match parse_unsigned(&rest, 255) {
            Some(v) => {
                f.version = Some(v as u8);
                Ok(f)
            },
            None => Err(ConfigError::InvalidVersion),
        }
    } else if starts_with(l, &p.project) {
        f.project = first_quoted_of(l);
        Ok(f)
    } else if starts_with(l, &p.runtime) {
        f.runtime = first_quoted_of(l);
        Ok(f)
    } else if starts_with(l, &p.service) {
        f.service = first_quoted_of(l);
        Ok(f)
    } else if starts_with(l, &p.source) {
        f.source = first_quoted_of(l);
        Ok(f)
    } else if starts_with(l, &p.build) {
        f.build_file = first_quoted_of(l);
        Ok(f)
    } else if starts_with(l, &p.expose) {
        let rest = slice_of(l, p.expose.len(), l.len());
        match parse_unsigned(&rest, 65535) {
            Some(v) => {
                f.port = Some(v as u16);
                Ok(f)
            },
            None => Err(ConfigError::InvalidPort),
        }
    } else if starts_with(l, &p.health) {
        f.health_path = first_quoted_of(l);
        Ok(f)
    } else if starts_with(l, &p.environment) {
        f.environment = first_quoted_of(l);
        Ok(f)
    } else {
        Ok(f)
    }
}

/// Reads a `.infra` file written by `render`: the generated core gives the
/// fields, the text after the project block becomes the extensions.
pub fn parse_generated_config(input: &str) -> (r: Result<ProjectConfig, ConfigError>)
    ensures
        match r {
            Ok(c) => generated_config(input@) == Ok::<_, ConfigError>(c@),
            Err(e) => generated_config(input@) == Err::<ProjectConfigView, _>(e),
        },
{
    let (core, extensions) = split_core_and_extensions(input)?;
    let core_chars = chars_of(core.as_str());
    let ls = split_lines(&core_chars);
    let p = Prefixes::new();
    let mut f = Fields {
        version: None,
        project: None,
        runtime: None,
        service: None,
        source: None,
        build_file: None,
        port: None,
        health_path: None,
        environment: None,
    };
    let ghost all = views(ls@);
    let mut i: usize = 0;
    assert(all.take(0) =~= Seq::<Seq<char>>::empty());
    while i < ls.len()
        invariant
            i <= ls.len(),
            p.valid(),
            all == views(ls@),
            all == lines(core@),
            core_and_extensions(input@) == Ok::<_, ConfigError>((core@, extensions@)),
            all.len() == ls@.len(),
            absorb_lines(all.take(i as int)) == Ok::<_, ConfigError>(f@),
        decreases ls.len() - i,
    {
        let l = trimmed(&ls[i]);
        assert(all.take(i + 1).drop_last() =~= all.take(i as int));
        assert(all.take(i + 1).last() == ls@[i as int]@);
        match absorb(f, &l, &p) {
            Ok(g) => {
                f = g;
            },
            Err(e) => {
                proof {
                    lemma_absorb_error_persists(all, i + 1, e);
                }
                return Err(e);
            },
        }
        i = i + 1;
    }
    assert(all.take(ls.len() as int) =~= all);
    let version = match f.version {
        Some(v) => v,
        None => {
            return Err(ConfigError::MissingVersion);
        },
    };
    let project = match f.project {
        Some(v) => v,
        None => {
            return Err(ConfigError::MissingProject);
        },
    };
    let runtime = match f.runtime {
        Some(v) => v,
        None => {
            return Err(ConfigError::MissingRuntime);
        },
    };
    let service = match f.service {
        Some(v) => v,
        None => {
            return Err(ConfigError::MissingService);
        },
    };
    let source = match f.source {
        Some(v) => v,
        None => {
            return Err(ConfigError::MissingSource);
        },
    };
    let build_file = match f.build_file {
        Some(v) => v,
        None => {
            return Err(ConfigError::MissingBuildFile);
        },
    };
    let port = match f.port {
        Some(v) => v,
        None => {
            return Err(ConfigError::MissingPort);
        },
    };
    let health_path = match f.health_path {
        Some(v) => v,
        None => {
            return Err(ConfigError::MissingHealthPath);
        },
    };
    let environment = match f.environment {
        Some(v) => Some(string_of(&v)),
        None => None,
    };
    Ok(
        ProjectConfig {
            version,
            project: string_of(&project),
            runtime: string_of(&runtime),
            service: ServiceConfig {
                name: string_of(&service),
                source: string_of(&source),
                build_file: string_of(&build_file),
                port,
                health_path: string_of(&health_path),
                environment,
            },
            extensions,
        },
    )
}

} // verus!
