//! The line-oriented grammar of the `agent` block: significant lines, block
//! headers, assignments and the values they hold.
use crate::agent_error::{AgentConfigError, AgentError};
use crate::text::{
    all_digits, chars_of, ends_with, eq_seq, find_char, first_index, has_prefix, has_suffix,
    lemma_first_index, lines, parse_unsigned, slice_of, split_char, split_lines, split_on,
    starts_with, string_of, strs, trim, trim_bounds, trimmed, unsigned_value, views,
};
use vstd::prelude::*;

verus! {

/// A value that is either written in the file or named by an environment variable.
#[derive(Debug, Clone, PartialEq, Eq)]
pub enum ValueRef {
    Literal(String),
    Environment(String),
}

pub enum ValueRefView {
    Literal(Seq<char>),
    Environment(Seq<char>),
}

impl View for ValueRef {
    type V = ValueRefView;

    open spec fn view(&self) -> ValueRefView {
        match self {
            ValueRef::Literal(s) => ValueRefView::Literal(s@),
            ValueRef::Environment(s) => ValueRefView::Environment(s@),
        }
    }
}

/// A line that the parser reads: not blank and not a `#` or `//` comment.
pub open spec fn significant(l: Seq<char>) -> bool {
    let t = trim(l);
    t.len() > 0 && t[0] != '#' && !has_prefix(t, seq!['/', '/'])
}

/// The significant lines, trimmed, each with its 1-based line number.
pub open spec fn significant_lines(ls: Seq<Seq<char>>) -> Seq<(nat, Seq<char>)>
    decreases ls.len(),
{
    if ls.len() == 0 {
        seq![]
    } else if significant(ls.last()) {
        significant_lines(ls.drop_last()).push((ls.len(), trim(ls.last())))
    } else {
        significant_lines(ls.drop_last())
    }
}

/// The view of numbered lines.
pub open spec fn numbered(v: Seq<(usize, Vec<char>)>) -> Seq<(nat, Seq<char>)> {
    v.map_values(|p: (usize, Vec<char>)| (p.0 as nat, p.1@))
}

/// The significant lines of a document, trimmed and numbered from 1.
pub fn significant_lines_of(input: &str) -> (r: Vec<(usize, Vec<char>)>)
    ensures
        numbered(r@) == significant_lines(lines(input@)),
{
    let s = chars_of(input);
    let ls = split_lines(&s);
    let ghost all = views(ls@);
    let slashes = vec!['/', '/'];
    let mut out: Vec<(usize, Vec<char>)> = Vec::new();
    let mut i: usize = 0;
    assert(all.take(0) =~= Seq::<Seq<char>>::empty());
    while i < ls.len()
        invariant
            i <= ls.len(),
            all == views(ls@),
            all == lines(input@),
            slashes@ == seq!['/', '/'],
            numbered(out@) == significant_lines(all.take(i as int)),
        decreases ls.len() - i,
    {
        let t = trimmed(&ls[i]);
        let ghost pre = all.take(i as int);
        let ghost next = all.take(i + 1);
        assert(next.drop_last() =~= pre);
        assert(next.last() == ls@[i as int]@);
        let ghost old_out = numbered(out@);
        assert(t@ == trim(next.last()));
        if t.len() > 0 && t[0] != '#' && !starts_with(&t, &slashes) {
            assert(t@.len() > 0);
            assert(t@[0] != '#');
            assert(!has_prefix(t@, seq!['/', '/']));
            assert(significant(next.last()));
            assert(significant_lines(next) == significant_lines(pre).push(((i + 1) as nat, t@)));
            out.push((i + 1, t));
            assert(numbered(out@) =~= old_out.push(((i + 1) as nat, t@)));
        } else {
            assert(!significant(next.last()));
            assert(significant_lines(next) == significant_lines(pre));
        }
        i = i + 1;
    }
    assert(all.take(ls.len() as int) =~= all);
    out
}

/// `kind "` followed by the block's name, a closing quote and `{`.
pub open spec fn named_block(line: Seq<char>, kind: Seq<char>) -> Option<Seq<char>> {
    let prefix = kind + seq![' ', '"'];
    if !has_prefix(line, prefix) {
        None
    } else {
        let rest = line.subrange(prefix.len() as int, line.len() as int);
        let end = first_index(rest, '"');
        if end >= rest.len() {
            None
        } else if trim(rest.subrange(end + 1, rest.len() as int)) == seq!['{'] {
            Some(rest.subrange(0, end))
        } else {
            None
        }
    }
}

/// The name of a `kind "name" {` block header.
pub fn named_block_of(line: &Vec<char>, kind: &Vec<char>) -> (r: Option<String>)
    ensures
        match r {
            Some(id) => named_block(line@, kind@) == Some(id@),
            None => named_block(line@, kind@) is None,
        },
{
    let mut prefix = kind.clone();
    prefix.push(' ');
    prefix.push('"');
    assert(prefix@ =~= kind@ + seq![' ', '"']);
    if !starts_with(line, &prefix) {
        return None;
    }
    let start = prefix.len();
    let ghost rest = line@.subrange(start as int, line@.len() as int);
    let end = match find_char(line, start, '"') {
        Some(e) => e,
        None => {
            return None;
        },
    };
    let (a, b) = trim_bounds(line, end + 1, line.len());
    assert(rest.subrange(end - start + 1, rest.len() as int) =~= line@.subrange(
        end + 1,
        line@.len() as int,
    ));
    if b - a == 1 && line[a] == '{' {
        let id = slice_of(line, start, end);
        assert(rest.subrange(0, end - start) =~= id@);
        assert(line@.subrange(a as int, b as int) =~= seq!['{']);
        Some(string_of(&id))
    } else {
        let ghost t = line@.subrange(a as int, b as int);
        if b - a == 1 {
            assert(t[0] == line@[a as int]);
            assert(t[0] != seq!['{'][0]);
        } else {
            assert(t.len() != seq!['{'].len());
        }
        assert(t != seq!['{']);
        None
    }
}

/// `key = value`, both trimmed and non-empty.
pub open spec fn assignment(n: nat, line: Seq<char>) -> Result<(Seq<char>, Seq<char>), AgentError> {
    let k = first_index(line, '=');
    if k >= line.len() {
        Err(AgentError::ExpectedAssignment { line: n })
    } else {
        let key = trim(line.subrange(0, k));
        let value = trim(line.subrange(k + 1, line.len() as int));
        if key.len() == 0 || value.len() == 0 {
            Err(AgentError::IncompleteAssignment { line: n })
        } else {
            Ok((key, value))
        }
    }
}

/// Splits an assignment line into its key and value.
pub fn assignment_of(n: usize, line: &Vec<char>) -> (r: Result<(Vec<char>, Vec<char>), AgentConfigError>)
    ensures
        match r {
            Ok((k, v)) => assignment(n as nat, line@) == Ok::<_, AgentError>((k@, v@)),
            Err(e) => assignment(n as nat, line@) == Err::<(Seq<char>, Seq<char>), _>(e@),
        },
{
    assert(line@.subrange(0, line@.len() as int) =~= line@);
    let k = match find_char(line, 0, '=') {
        Some(k) => k,
        None => {
            return Err(AgentConfigError::ExpectedAssignment { line: n });
        },
    };
    let (a, b) = trim_bounds(line, 0, k);
    let (c, d) = trim_bounds(line, k + 1, line.len());
    if a == b || c == d {
        return Err(AgentConfigError::IncompleteAssignment { line: n });
    }
    Ok((slice_of(line, a, b), slice_of(line, c, d)))
}

/// A value in double quotes, without them.
pub open spec fn quoted(n: nat, v: Seq<char>) -> Result<Seq<char>, AgentError> {
    if v.len() < 2 || v[0] != '"' || v.last() != '"' {
        Err(AgentError::ExpectedQuotedString { line: n })
    } else {
        Ok(v.subrange(1, v.len() - 1))
    }
}

/// Reads a quoted string value.
pub fn quoted_of(n: usize, v: &Vec<char>) -> (r: Result<String, AgentConfigError>)
    ensures
        match r {
            Ok(s) => quoted(n as nat, v@) == Ok::<_, AgentError>(s@),
            Err(e) => quoted(n as nat, v@) == Err::<Seq<char>, _>(e@),
        },
{
    if v.len() < 2 || v[0] != '"' || v[v.len() - 1] != '"' {
        return Err(AgentConfigError::ExpectedQuotedString { line: n });
    }
    Ok(string_of(&slice_of(v, 1, v.len() - 1)))
}

/// A character allowed in an environment variable name.
pub open spec fn env_char(c: char) -> bool {
    (65 <= c as u32 && c as u32 <= 90) || (48 <= c as u32 && c as u32 <= 57) || c == '_'
}

/// A non-empty run of upper-case ASCII letters, digits and underscores.
pub open spec fn environment_name(v: Seq<char>) -> bool {
    v.len() > 0 && forall|i: int| 0 <= i < v.len() ==> env_char(v[i])
}

/// Whether `v` is a valid environment variable name.
pub fn validate_environment_name(v: &Vec<char>) -> (b: bool)
    ensures
        b == environment_name(v@),
{
    if v.len() == 0 {
        return false;
    }
    let mut i: usize = 0;
    while i < v.len()
        invariant
            i <= v.len(),
            forall|j: int| 0 <= j < i ==> env_char(v@[j]),
        decreases v.len() - i,
    {
        let u = v[i] as u32;
        if !((65 <= u && u <= 90) || (48 <= u && u <= 57) || v[i] == '_') {
            return false;
        }
        i = i + 1;
    }
    true
}

/// A character allowed in an identifier.
pub open spec fn identifier_char(c: char) -> bool {
    (65 <= c as u32 && c as u32 <= 90) || (97 <= c as u32 && c as u32 <= 122) || (48 <= c as u32
        && c as u32 <= 57) || c == '-' || c == '_' || c == '.'
}

/// 1 to 64 ASCII letters, digits, dots, dashes or underscores.
pub open spec fn identifier(v: Seq<char>) -> bool {
    0 < v.len() <= 64 && forall|i: int| 0 <= i < v.len() ==> identifier_char(v[i])
}

/// Whether `v` is a valid identifier.
pub fn validate_identifier(v: &Vec<char>) -> (b: bool)
    ensures
        b == identifier(v@),
{
    if v.len() == 0 || v.len() > 64 {
        return false;
    }
    let mut i: usize = 0;
    while i < v.len()
        invariant
            i <= v.len(),
            forall|j: int| 0 <= j < i ==> identifier_char(v@[j]),
        decreases v.len() - i,
    {
        let u = v[i] as u32;
        if !((65 <= u && u <= 90) || (97 <= u && u <= 122) || (48 <= u && u <= 57) || v[i] == '-'
            || v[i] == '_' || v[i] == '.') {
            return false;
        }
        i = i + 1;
    }
    true
}

/// `env("NAME")` or a quoted literal.
pub open spec fn value_ref(n: nat, v: Seq<char>) -> Result<ValueRefView, AgentError> {
    let p = "env(\""@;
    let q = "\")"@;
    if has_prefix(v, p) && has_suffix(v.subrange(p.len() as int, v.len() as int), q) {
        let inner = v.subrange(p.len() as int, v.len() - q.len());
        if environment_name(inner) {
            Ok(ValueRefView::Environment(inner))
        } else {
            Err(AgentError::InvalidEnvironmentReference { line: n })
        }
    } else {
        match quoted(n, v) {
            Ok(s) => Ok(ValueRefView::Literal(s)),
            Err(e) => Err(e),
        }
    }
}

/// Reads a value that may reference the environment.
pub fn value_ref_of(n: usize, v: &Vec<char>) -> (r: Result<ValueRef, AgentConfigError>)
    ensures
        match r {
            Ok(x) => value_ref(n as nat, v@) == Ok::<_, AgentError>(x@),
            Err(e) => value_ref(n as nat, v@) == Err::<ValueRefView, _>(e@),
        },
{
    let p = chars_of("env(\"");
    let q = chars_of("\")");
    if starts_with(v, &p) {
        let rest = slice_of(v, p.len(), v.len());
        if ends_with(&rest, &q) {
            let inner = slice_of(v, p.len(), v.len() - q.len());
            assert(inner@ =~= v@.subrange(p@.len() as int, v@.len() - q@.len()));
            if validate_environment_name(&inner) {
                return Ok(ValueRef::Environment(string_of(&inner)));
            } else {
                return Err(AgentConfigError::InvalidEnvironmentReference { line: n });
            }
        }
    }
    let s = quoted_of(n, v)?;
    Ok(ValueRef::Literal(s))
}

/// Each piece, trimmed and quoted; the first piece that is not quoted rejects all.
pub open spec fn quoted_all(n: nat, ps: Seq<Seq<char>>) -> Result<Seq<Seq<char>>, AgentError>
    decreases ps.len(),
{
    if ps.len() == 0 {
        Ok(seq![])
    } else {
        match quoted_all(n, ps.drop_last()) {
            Err(e) => Err(e),
            Ok(q) => match quoted(n, trim(ps.last())) {
                Ok(x) => Ok(q.push(x)),
                Err(e) => Err(e),
            },
        }
    }
}

/// `["a", "b"]`: a bracketed, comma-separated list of quoted strings.
pub open spec fn string_list(n: nat, v: Seq<char>) -> Result<Seq<Seq<char>>, AgentError> {
    if !(v.len() > 0 && v[0] == '[' && has_suffix(v.drop_first(), seq![']'])) {
        Err(AgentError::ExpectedStringList { line: n })
    } else {
        let inner = trim(v.drop_first().drop_last());
        if inner.len() == 0 {
            Ok(seq![])
        } else {
            quoted_all(n, split_on(inner, ','))
        }
    }
}

proof fn lemma_quoted_all_error(n: nat, ps: Seq<Seq<char>>, k: int, e: AgentError)
    requires
        0 <= k <= ps.len(),
        quoted_all(n, ps.take(k)) == Err::<Seq<Seq<char>>, _>(e),
    ensures
        quoted_all(n, ps) == Err::<Seq<Seq<char>>, _>(e),
    decreases ps.len() - k,
{
    if k < ps.len() {
        assert(ps.take(k + 1).drop_last() =~= ps.take(k));
        lemma_quoted_all_error(n, ps, k + 1, e);
    } else {
        assert(ps.take(k) =~= ps);
    }
}

/// Reads a list of quoted strings.
pub fn string_list_of(n: usize, v: &Vec<char>) -> (r: Result<Vec<String>, AgentConfigError>)
    ensures
        match r {
            Ok(x) => string_list(n as nat, v@) == Ok::<_, AgentError>(strs(x@)),
            Err(e) => string_list(n as nat, v@) == Err::<Seq<Seq<char>>, _>(e@),
        },
{
    if !(v.len() > 0 && v[0] == '[' && v.len() >= 2 && v[v.len() - 1] == ']') {
        proof {
            if v@.len() > 0 && v@[0] == '[' && has_suffix(v@.drop_first(), seq![']']) {
                assert(v@.drop_first().subrange(v@.len() - 2, v@.len() - 1)[0] == v@[v@.len() - 1]);
            }
        }
        return Err(AgentConfigError::ExpectedStringList { line: n });
    }
    assert(v@.drop_first().subrange(v@.len() - 2, v@.len() - 1) =~= seq![']']);
    let (a, b) = trim_bounds(v, 1, v.len() - 1);
    assert(v@.subrange(1, v@.len() - 1) =~= v@.drop_first().drop_last());
    let mut out: Vec<String> = Vec::new();
    if a == b {
        assert(strs(out@) =~= seq![]);
        return Ok(out);
    }
    let inner = slice_of(v, a, b);
    let pieces = split_char(&inner, ',');
    let ghost ps = views(pieces@);
    let mut i: usize = 0;
    assert(ps.take(0) =~= Seq::<Seq<char>>::empty());
    assert(strs(out@) =~= Seq::<Seq<char>>::empty());
    assert(inner@ == trim(v@.drop_first().drop_last()));
    while i < pieces.len()
        invariant
            i <= pieces.len(),
            inner@ == trim(v@.drop_first().drop_last()),
            inner@.len() > 0,
            v@.len() > 0 && v@[0] == '[' && has_suffix(v@.drop_first(), seq![']']),
            ps == views(pieces@),
            ps == split_on(inner@, ','),
            quoted_all(n as nat, ps.take(i as int)) == Ok::<_, AgentError>(strs(out@)),
        decreases pieces.len() - i,
    {
        let t = trimmed(&pieces[i]);
        assert(ps.take(i + 1).drop_last() =~= ps.take(i as int));
        assert(ps.take(i + 1).last() == pieces@[i as int]@);
        match quoted_of(n, &t) {
            Ok(q) => {
                let ghost before = strs(out@);
                out.push(q);
                assert(strs(out@) =~= before.push(q@));
            },
            Err(e) => {
                proof {
                    lemma_quoted_all_error(n as nat, ps, i + 1, e@);
                }
                return Err(e);
            },
        }
        i = i + 1;
    }
    assert(ps.take(pieces.len() as int) =~= ps);
    Ok(out)
}

/// An unsigned 64-bit integer value.
pub open spec fn integer(n: nat, v: Seq<char>) -> Result<nat, AgentError> {
    match unsigned_value(v, 0xffff_ffff_ffff_ffff) {
        Some(x) => Ok(x),
        None => Err(AgentError::ExpectedUnsignedInteger { line: n }),
    }
}

/// Reads an unsigned 64-bit integer value.
pub fn integer_of(n: usize, v: &Vec<char>) -> (r: Result<u64, AgentConfigError>)
    ensures
        match r {
            Ok(x) => integer(n as nat, v@) == Ok::<_, AgentError>(x as nat),
            Err(e) => integer(n as nat, v@) == Err::<nat, _>(e@),
        },
{
    match parse_unsigned(v, 0xffff_ffff_ffff_ffff) {
        Some(x) => Ok(x),
        None => Err(AgentConfigError::ExpectedUnsignedInteger { line: n }),
    }
}

} // verus!
