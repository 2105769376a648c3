//! What holds of `.infra` files across calls: a rendered configuration reads
//! back as itself, and a replacement keeps the application-owned blocks of the
//! file it replaces.
use crate::config::{
    file_name, infra_file_name, join, resolved_path,
    absorb_line, absorb_lines, after, assemble, close_index, core_and_extensions, core_end,
    core_lines, environment_lines, first_quoted, generated_config, in_quotes, joined, no_fields,
    rendered, rendered_core, replacement, ConfigError, GeneratedFields, ProjectConfigView,
    ServiceConfigView,
};
use crate::text::{
    all_digits, decimal, digit_char, digit_value, digits_value, find_from, first_index, is_digit,
    has_prefix, is_ws, last_index, lemma_last_index, lemma_first_index, lemma_find_from, lines, occurs_at, strip_cr, trim, trim_end,
    trim_start, unsigned_value,
};
use vstd::prelude::*;

verus! {

/// The first `c` of `a + b` is the first of `a`, or lies in `b`.
proof fn lemma_first_index_append(a: Seq<char>, b: Seq<char>, c: char)
    ensures
        first_index(a + b, c) == if first_index(a, c) < a.len() {
            first_index(a, c)
        } else {
            a.len() + first_index(b, c)
        },
    decreases a.len(),
{
    if a.len() == 0 {
        assert(a + b =~= b);
    } else {
        assert((a + b).drop_first() =~= a.drop_first() + b);
        lemma_first_index_append(a.drop_first(), b, c);
    }
}

/// `first_index` is the first position holding `c`.
proof fn lemma_first_index_is(t: Seq<char>, c: char, k: int)
    requires
        0 <= k <= t.len(),
        k < t.len() ==> t[k] == c,
        forall|j: int| 0 <= j < k ==> t[j] != c,
    ensures
        first_index(t, c) == k,
{
    lemma_first_index(t, c);
    let f = first_index(t, c);
    if f < k {
        assert(t[f] == c);
    }
    if f > k {
        assert(t[k] != c);
    }
}

/// The lines of joined lines are those lines, when none holds a line feed or
/// ends with a carriage return.
proof fn lemma_lines_joined(ls: Seq<Seq<char>>, t: Seq<char>)
    requires
        forall|i: int| 0 <= i < ls.len() ==> first_index(#[trigger] ls[i], '\n') == ls[i].len(),
        forall|i: int| 0 <= i < ls.len() ==> strip_cr(#[trigger] ls[i]) == ls[i],
    ensures
        lines(joined(ls) + t) == ls + lines(t),
    decreases ls.len(),
{
    if ls.len() == 0 {
        assert(joined(ls) + t =~= t);
        assert(ls + lines(t) =~= lines(t));
    } else {
        let l = ls[0];
        let rest = joined(ls.drop_first()) + t;
        let s = joined(ls) + t;
        assert(s =~= l + (seq!['\n'] + rest));
        assert(first_index(l, '\n') == l.len());
        lemma_first_index_append(l, seq!['\n'] + rest, '\n');
        assert(first_index(seq!['\n'] + rest, '\n') == 0);
        assert(s.subrange(0, l.len() as int) =~= l);
        assert(s.subrange(l.len() as int + 1, s.len() as int) =~= rest);
        assert forall|i: int| 0 <= i < ls.drop_first().len() implies first_index(
            #[trigger] ls.drop_first()[i],
            '\n',
        ) == ls.drop_first()[i].len() by {
            assert(ls.drop_first()[i] == ls[i + 1]);
        }
        assert forall|i: int| 0 <= i < ls.drop_first().len() implies strip_cr(
            #[trigger] ls.drop_first()[i],
        ) == ls.drop_first()[i] by {
            assert(ls.drop_first()[i] == ls[i + 1]);
        }
        lemma_lines_joined(ls.drop_first(), t);
        assert(s.len() > 0);
        assert(lines(s) == seq![strip_cr(l)] + lines(rest));
        assert(ls + lines(t) =~= seq![l] + (ls.drop_first() + lines(t)));
    }
}

/// Joining two runs of lines joins their texts.
proof fn lemma_joined_append(a: Seq<Seq<char>>, b: Seq<Seq<char>>)
    ensures
        joined(a + b) == joined(a) + joined(b),
    decreases a.len(),
{
    if a.len() == 0 {
        assert(a + b =~= b);
        assert(joined(a) + joined(b) =~= joined(b));
    } else {
        assert((a + b).drop_first() =~= a.drop_first() + b);
        lemma_joined_append(a.drop_first(), b);
        assert((a + b)[0] == a[0]);
        assert(joined(a + b) =~= joined(a) + joined(b));
    }
}

proof fn lemma_digit(d: nat)
    requires
        d < 10,
    ensures
        is_digit(digit_char(d)),
        digit_value(digit_char(d)) == d,
{
}

/// `decimal(n)` is a run of digits whose value is `n`.
proof fn lemma_decimal(n: nat)
    ensures
        decimal(n).len() > 0,
        all_digits(decimal(n)),
        digits_value(decimal(n)) == n,
    decreases n,
{
    if n < 10 {
        lemma_digit(n);
        assert(decimal(n).drop_last() =~= Seq::<char>::empty());
        assert(digits_value(Seq::<char>::empty()) == 0);
        assert(digits_value(decimal(n)) == digits_value(decimal(n).drop_last()) * 10
            + digit_value(decimal(n).last()));
    } else {
        lemma_decimal(n / 10);
        lemma_digit(n % 10);
        let d = decimal(n / 10);
        assert(decimal(n) == d.push(digit_char(n % 10)));
        assert(d.push(digit_char(n % 10)).drop_last() =~= d);
        assert(digits_value(decimal(n)) == digits_value(d) * 10 + digit_value(digit_char(n % 10)));
        assert(n == (n / 10) * 10 + n % 10);
    }
}

/// Reading back a rendered number within range gives the number.
pub proof fn lemma_unsigned_decimal(n: nat, max: nat)
    requires
        n <= max,
    ensures
        unsigned_value(decimal(n), max) == Some(n),
{
    lemma_decimal(n);
    assert(is_digit(decimal(n)[0]));
}

/// Every character is whitespace.
pub open spec fn all_ws(w: Seq<char>) -> bool {
    forall|i: int| 0 <= i < w.len() ==> is_ws(w[i])
}

/// Empty, or neither starts nor ends with whitespace.
pub open spec fn unpadded(t: Seq<char>) -> bool {
    t.len() == 0 || (!is_ws(t[0]) && !is_ws(t.last()))
}

proof fn lemma_trim_start_pad(w: Seq<char>, t: Seq<char>)
    requires
        all_ws(w),
        t.len() == 0 || !is_ws(t[0]),
    ensures
        trim_start(w + t) == t,
    decreases w.len(),
{
    if w.len() == 0 {
        assert(w + t =~= t);
    } else {
        assert((w + t).drop_first() =~= w.drop_first() + t);
        lemma_trim_start_pad(w.drop_first(), t);
    }
}

proof fn lemma_trim_end_pad(t: Seq<char>, w: Seq<char>)
    requires
        all_ws(w),
        t.len() == 0 || !is_ws(t.last()),
    ensures
        trim_end(t + w) == t,
    decreases w.len(),
{
    if w.len() == 0 {
        assert(t + w =~= t);
        if t.len() > 0 {
            assert(trim_end(t) == t);
        }
    } else {
        assert((t + w).drop_last() =~= t + w.drop_last());
        lemma_trim_end_pad(t, w.drop_last());
    }
}

/// Trimming text framed by whitespace gives the text, when it is unpadded.
pub proof fn lemma_trim_framed(w1: Seq<char>, t: Seq<char>, w2: Seq<char>)
    requires
        all_ws(w1),
        all_ws(w2),
        unpadded(t),
    ensures
        trim(w1 + t + w2) == t,
{
    if t.len() == 0 {
        assert(w1 + t + w2 =~= (w1 + w2) + t);
        assert(all_ws(w1 + w2));
        lemma_trim_start_pad(w1 + w2, t);
        assert(trim_end(t) == t);
    } else {
        assert(w1 + t + w2 =~= w1 + (t + w2));
        assert((t + w2)[0] == t[0]);
        lemma_trim_start_pad(w1, t + w2);
        lemma_trim_end_pad(t, w2);
    }
}

proof fn lemma_trim_start_shape(x: Seq<char>)
    ensures
        trim_start(x).len() == 0 || !is_ws(trim_start(x)[0]),
        trim_start(x).len() <= x.len(),
        trim_start(x) == x.subrange(x.len() - trim_start(x).len(), x.len() as int),
    decreases x.len(),
{
    if x.len() > 0 && is_ws(x[0]) {
        lemma_trim_start_shape(x.drop_first());
        let r = trim_start(x.drop_first());
        assert(x.drop_first().subrange(x.drop_first().len() - r.len(), x.drop_first().len() as int)
            =~= x.subrange(x.len() - r.len(), x.len() as int));
    } else {
        assert(x.subrange(0, x.len() as int) =~= x);
    }
}

proof fn lemma_trim_end_shape(y: Seq<char>)
    ensures
        trim_end(y).len() == 0 || !is_ws(trim_end(y).last()),
        trim_end(y).len() <= y.len(),
        trim_end(y) == y.subrange(0, trim_end(y).len() as int),
    decreases y.len(),
{
    if y.len() > 0 && is_ws(y.last()) {
        lemma_trim_end_shape(y.drop_last());
        let r = trim_end(y.drop_last());
        assert(y.drop_last().subrange(0, r.len() as int) =~= y.subrange(0, r.len() as int));
    } else {
        assert(y.subrange(0, y.len() as int) =~= y);
    }
}

/// What `trim` gives is unpadded.
pub proof fn lemma_trim_unpadded(x: Seq<char>)
    ensures
        unpadded(trim(x)),
{
    lemma_trim_start_shape(x);
    let y = trim_start(x);
    lemma_trim_end_shape(y);
    let r = trim_end(y);
    if r.len() > 0 {
        assert(r[0] == y[0]);
    }
}

/// Trimming twice trims once.
pub proof fn lemma_trim_idempotent(x: Seq<char>)
    ensures
        trim(trim(x)) == trim(x),
{
    lemma_trim_unpadded(x);
    lemma_trim_framed(seq![], trim(x), seq![]);
    assert(seq![] + trim(x) + seq![] =~= trim(x));
}

/// One step of the brace scan that finds the end of the project block: the
/// depth and the string and escape flags after `c`, or `None` where the scan
/// stops at `c`.
pub open spec fn scan_step(c: char, depth: nat, in_string: bool, escaped: bool) -> Option<
    (nat, bool, bool),
> {
    if in_string {
        if escaped {
            Some((depth, true, false))
        } else if c == '\\' {
            Some((depth, true, true))
        } else if c == '"' {
            Some((depth, false, false))
        } else {
            Some((depth, true, false))
        }
    } else if c == '"' {
        Some((depth, true, escaped))
    } else if c == '{' {
        Some(
            (
                if depth < 0xffff_ffff {
                    depth + 1
                } else {
                    depth
                },
                false,
                escaped,
            ),
        )
    } else if c == '}' {
        if depth <= 1 {
            None
        } else {
            Some(((depth - 1) as nat, false, escaped))
        }
    } else {
        Some((depth, false, escaped))
    }
}

/// The scan state after all of `t`, or `None` when the scan stops inside it.
pub open spec fn scan(t: Seq<char>, depth: nat, in_string: bool, escaped: bool) -> Option<
    (nat, bool, bool),
>
    decreases t.len(),
{
    if t.len() == 0 {
        Some((depth, in_string, escaped))
    } else {
        match scan_step(t[0], depth, in_string, escaped) {
            Some((d, i, e)) => scan(t.drop_first(), d, i, e),
            None => None,
        }
    }
}

/// Scanning through a run that does not stop the scan.
proof fn lemma_close_through(
    a: Seq<char>,
    t: Seq<char>,
    b: Seq<char>,
    depth: nat,
    in_string: bool,
    escaped: bool,
)
    requires
        scan(t, depth, in_string, escaped) is Some,
    ensures
        ({
            let (d, i, e) = scan(t, depth, in_string, escaped)->0;
            close_index(a + t + b, a.len() as int, depth, in_string, escaped) == close_index(
                a + t + b,
                (a.len() + t.len()) as int,
                d,
                i,
                e,
            )
        }),
    decreases t.len(),
{
    if t.len() > 0 {
        let s = a + t + b;
        assert(s[a.len() as int] == t[0]);
        let (d, i, e) = scan_step(t[0], depth, in_string, escaped)->0;
        assert(close_index(s, a.len() as int, depth, in_string, escaped) == close_index(
            s,
            a.len() + 1int,
            d,
            i,
            e,
        ));
        let a2 = a.push(t[0]);
        assert(a2 + t.drop_first() + b =~= s);
        lemma_close_through(a2, t.drop_first(), b, d, i, e);
    } else {
        assert(a + t + b =~= a + t + b);
    }
}

/// Scanning one character is one step.
proof fn lemma_scan_one(c: char, depth: nat, in_string: bool, escaped: bool)
    ensures
        scan(seq![c], depth, in_string, escaped) == scan_step(c, depth, in_string, escaped),
{
    assert(seq![c].drop_first() =~= Seq::<char>::empty());
    assert(seq![c][0] == c);
    match scan_step(c, depth, in_string, escaped) {
        Some((d, i, e)) => {
            assert(scan(Seq::<char>::empty(), d, i, e) == Some((d, i, e)));
        },
        None => {},
    }
}

/// Scanning a concatenation scans one part, then the other.
proof fn lemma_scan_append(x: Seq<char>, y: Seq<char>, depth: nat, in_string: bool, escaped: bool)
    ensures
        scan(x + y, depth, in_string, escaped) == match scan(x, depth, in_string, escaped) {
            Some((d, i, e)) => scan(y, d, i, e),
            None => None,
        },
    decreases x.len(),
{
    if x.len() == 0 {
        assert(x + y =~= y);
    } else {
        assert((x + y).drop_first() =~= x.drop_first() + y);
        assert((x + y)[0] == x[0]);
        match scan_step(x[0], depth, in_string, escaped) {
            Some((d, i, e)) => {
                lemma_scan_append(x.drop_first(), y, d, i, e);
            },
            None => {},
        }
    }
}

/// Text without quotes or braces leaves the scan where it was.
proof fn lemma_scan_plain(t: Seq<char>, depth: nat)
    requires
        forall|k: int| 0 <= k < t.len() ==> t[k] != '"' && t[k] != '{' && t[k] != '}',
    ensures
        scan(t, depth, false, false) == Some((depth, false, false)),
    decreases t.len(),
{
    if t.len() > 0 {
        assert(t[0] != '"' && t[0] != '{' && t[0] != '}');
        assert forall|k: int| 0 <= k < t.drop_first().len() implies t.drop_first()[k] != '"'
            && t.drop_first()[k] != '{' && t.drop_first()[k] != '}' by {
            assert(t.drop_first()[k] == t[k + 1]);
        }
        lemma_scan_plain(t.drop_first(), depth);
    }
}

/// The number of backslashes that end `v`.
pub open spec fn trailing_backslashes(v: Seq<char>) -> nat
    decreases v.len(),
{
    if v.len() > 0 && v.last() == '\\' {
        1 + trailing_backslashes(v.drop_last())
    } else {
        0
    }
}

/// `v` can stand between the double quotes of one line of the core: it holds
/// no double quote and no line feed, and does not end in a backslash that
/// would escape the closing quote.
pub open spec fn quotable(v: Seq<char>) -> bool {
    &&& forall|i: int| 0 <= i < v.len() ==> v[i] != '"' && v[i] != '\n'
    &&& trailing_backslashes(v) % 2 == 0
}

/// Inside a string, text without quotes only moves the escape flag.
proof fn lemma_scan_in_string(v: Seq<char>, depth: nat)
    requires
        forall|i: int| 0 <= i < v.len() ==> v[i] != '"',
    ensures
        scan(v, depth, true, false) == Some((depth, true, trailing_backslashes(v) % 2 == 1)),
    decreases v.len(),
{
    if v.len() > 0 {
        let x = v.drop_last();
        let c = v.last();
        assert forall|i: int| 0 <= i < x.len() implies x[i] != '"' by {
            assert(x[i] == v[i]);
        }
        lemma_scan_in_string(x, depth);
        assert(x + seq![c] =~= v);
        lemma_scan_append(x, seq![c], depth, true, false);
        let e = trailing_backslashes(x) % 2 == 1;
        lemma_scan_one(c, depth, true, e);
    } else {
        assert(trailing_backslashes(v) == 0);
    }
}

/// A quotable value between quotes leaves the scan where it was.
proof fn lemma_scan_quoted(v: Seq<char>, depth: nat)
    requires
        quotable(v),
    ensures
        scan(in_quotes(v), depth, false, false) == Some((depth, false, false)),
{
    let q = seq!['"'];
    lemma_scan_in_string(v, depth);
    lemma_scan_append(q + v, q, depth, false, false);
    lemma_scan_append(q, v, depth, false, false);
    lemma_scan_one('"', depth, false, false);
    lemma_scan_one('"', depth, true, false);
}

/// A sequence of lines each neutral to the scan at `depth` is neutral.
proof fn lemma_scan_joined(ls: Seq<Seq<char>>, depth: nat)
    requires
        forall|i: int|
            0 <= i < ls.len() ==> scan(#[trigger] ls[i], depth, false, false) == Some(
                (depth, false, false),
            ),
    ensures
        scan(joined(ls), depth, false, false) == Some((depth, false, false)),
    decreases ls.len(),
{
    if ls.len() > 0 {
        assert(scan(ls[0], depth, false, false) == Some((depth, false, false)));
        assert forall|i: int| 0 <= i < ls.drop_first().len() implies scan(
            #[trigger] ls.drop_first()[i],
            depth,
            false,
            false,
        ) == Some((depth, false, false)) by {
            assert(ls.drop_first()[i] == ls[i + 1]);
        }
        lemma_scan_joined(ls.drop_first(), depth);
        lemma_scan_one('\n', depth, false, false);
        lemma_scan_append(ls[0], seq!['\n'], depth, false, false);
        lemma_scan_append(ls[0] + seq!['\n'], joined(ls.drop_first()), depth, false, false);
    }
}

/// A keyword, then a quotable value between quotes, is neutral to the scan.
proof fn lemma_scan_keyword_quoted(kw: Seq<char>, v: Seq<char>, depth: nat)
    requires
        forall|k: int| 0 <= k < kw.len() ==> kw[k] != '"' && kw[k] != '{' && kw[k] != '}',
        quotable(v),
    ensures
        scan(kw + in_quotes(v), depth, false, false) == Some((depth, false, false)),
{
    lemma_scan_plain(kw, depth);
    lemma_scan_quoted(v, depth);
    lemma_scan_append(kw, in_quotes(v), depth, false, false);
}

/// The text fields of a configuration that `render` writes in a form that
/// reads back unchanged.
pub open spec fn renders_faithfully(c: ProjectConfigView) -> bool {
    &&& c.version <= 255
    &&& c.service.port <= 65535
    &&& quotable(c.project)
    &&& forall|i: int| 0 <= i < c.project.len() ==> c.project[i] != '{'
    &&& quotable(c.runtime)
    &&& quotable(c.service.name)
    &&& quotable(c.service.source)
    &&& quotable(c.service.build_file)
    &&& quotable(c.service.health_path)
    &&& (c.service.environment matches Some(e) ==> quotable(e))
    &&& c.extensions == trim(c.extensions)
}

/// The lines of the core before the project block.
spec fn head_lines(c: ProjectConfigView) -> Seq<Seq<char>> {
    seq![core_lines(c)[0], core_lines(c)[1], core_lines(c)[2]]
}

/// The lines of the project block up to the service block.
spec fn runtime_lines(c: ProjectConfigView) -> Seq<Seq<char>> {
    seq![core_lines(c)[3], core_lines(c)[4]]
}

/// The lines of the service block after its opening line.
spec fn service_lines(c: ProjectConfigView) -> Seq<Seq<char>> {
    seq![core_lines(c)[6], core_lines(c)[7], core_lines(c)[8], core_lines(c)[9]]
        + environment_lines(c.service.environment)
}

proof fn lemma_core_split(c: ProjectConfigView)
    ensures
        core_lines(c) == head_lines(c) + runtime_lines(c) + seq![core_lines(c)[5]] + service_lines(
            c,
        ) + seq!["    }"@] + seq!["}"@],
        core_lines(c).len() == 12 + environment_lines(c.service.environment).len(),
{
    assert(core_lines(c) =~= head_lines(c) + runtime_lines(c) + seq![core_lines(c)[5]]
        + service_lines(c) + seq!["    }"@] + seq!["}"@]);
}

proof fn lemma_joined_one(l: Seq<char>)
    ensures
        joined(seq![l]) == l + seq!['\n'],
{
    assert(Seq::<Seq<char>>::empty().push(l) =~= seq![l]);
    crate::config::lemma_joined_push(Seq::<Seq<char>>::empty(), l);
    assert(joined(Seq::<Seq<char>>::empty()) == Seq::<char>::empty());
    assert(Seq::<char>::empty() + l + seq!['\n'] =~= l + seq!['\n']);
}

/// The core as the text of its parts.
proof fn lemma_core_text(c: ProjectConfigView)
    ensures
        rendered_core(c) == joined(head_lines(c)) + joined(runtime_lines(c)) + (core_lines(c)[5]
            + seq!['\n']) + joined(service_lines(c)) + ("    }"@ + seq!['\n']) + ("}"@ + seq!['\n']),
        joined(head_lines(c)) == core_lines(c)[0] + seq!['\n', '\n'] + core_lines(c)[2] + seq!['\n'],
        joined(runtime_lines(c)) == core_lines(c)[3] + seq!['\n', '\n'],
{
    let cl = core_lines(c);
    lemma_core_split(c);
    let h = head_lines(c);
    let r = runtime_lines(c);
    let m5 = seq![cl[5]];
    let sv = service_lines(c);
    let mc = seq!["    }"@];
    let ml = seq!["}"@];
    lemma_joined_append(h + r + m5 + sv + mc, ml);
    lemma_joined_append(h + r + m5 + sv, mc);
    lemma_joined_append(h + r + m5, sv);
    lemma_joined_append(h + r, m5);
    lemma_joined_append(h, r);
    lemma_joined_one(cl[5]);
    lemma_joined_one("    }"@);
    lemma_joined_one("}"@);
    lemma_joined_append(seq![cl[0]], seq![cl[1], cl[2]]);
    lemma_joined_append(seq![cl[1]], seq![cl[2]]);
    assert(h =~= seq![cl[0]] + seq![cl[1], cl[2]]);
    assert(seq![cl[1], cl[2]] =~= seq![cl[1]] + seq![cl[2]]);
    lemma_joined_one(cl[0]);
    lemma_joined_one(cl[1]);
    lemma_joined_one(cl[2]);
    assert(cl[1] == Seq::<char>::empty());
    assert(joined(h) =~= cl[0] + seq!['\n', '\n'] + cl[2] + seq!['\n']);
    assert(r =~= seq![cl[3]] + seq![cl[4]]);
    lemma_joined_append(seq![cl[3]], seq![cl[4]]);
    lemma_joined_one(cl[3]);
    lemma_joined_one(cl[4]);
    assert(cl[4] == Seq::<char>::empty());
    assert(joined(r) =~= cl[3] + seq!['\n', '\n']);
}

/// The scan over the runtime lines, the service opening line, the service
/// lines and the service closing line, from just after the project brace.
proof fn lemma_scan_block(c: ProjectConfigView)
    requires
        renders_faithfully(c),
    ensures
        scan(joined(runtime_lines(c)), 1, false, false) == Some((1nat, false, false)),
        scan(core_lines(c)[5] + seq!['\n'], 1, false, false) == Some((2nat, false, false)),
        scan(joined(service_lines(c)), 2, false, false) == Some((2nat, false, false)),
        scan("    }"@ + seq!['\n'], 2, false, false) == Some((1nat, false, false)),
{
    let cl = core_lines(c);
    reveal_strlit("    runtime = ");
    reveal_strlit("    service ");
    reveal_strlit(" {");
    reveal_strlit("        source = ");
    reveal_strlit("        build = ");
    reveal_strlit("        expose = ");
    reveal_strlit("        health = ");
    reveal_strlit("        environment = ");
    reveal_strlit("    }");
    lemma_scan_keyword_quoted("    runtime = "@, c.runtime, 1);
    let rl = runtime_lines(c);
    assert(scan(rl[1], 1, false, false) == Some((1nat, false, false)));
    lemma_scan_joined(rl, 1);
    lemma_scan_one('\n', 1, false, false);
    lemma_scan_one('\n', 2, false, false);
    lemma_scan_one('\n', 1, false, false);
    lemma_scan_keyword_quoted("    service "@, c.service.name, 1);
    let kq = "    service "@ + in_quotes(c.service.name);
    assert(" {"@ =~= seq![' '] + seq!['{']);
    lemma_scan_one(' ', 1, false, false);
    lemma_scan_one('{', 1, false, false);
    lemma_scan_append(seq![' '], seq!['{'], 1, false, false);
    lemma_scan_append(kq, " {"@, 1, false, false);
    lemma_scan_append(cl[5], seq!['\n'], 1, false, false);
    lemma_scan_keyword_quoted("        source = "@, c.service.source, 2);
    lemma_scan_keyword_quoted("        build = "@, c.service.build_file, 2);
    lemma_scan_keyword_quoted("        health = "@, c.service.health_path, 2);
    lemma_decimal(c.service.port);
    let ex = "        expose = "@ + decimal(c.service.port);
    assert forall|k: int| 0 <= k < ex.len() implies ex[k] != '"' && ex[k] != '{' && ex[k] != '}' by {
        if k >= 17 {
            assert(is_digit(decimal(c.service.port)[k - 17]));
        }
    }
    lemma_scan_plain(ex, 2);
    match c.service.environment {
        Some(e) => {
            lemma_scan_keyword_quoted("        environment = "@, e, 2);
        },
        None => {},
    }
    let sl = service_lines(c);
    assert forall|i: int| 0 <= i < sl.len() implies scan(#[trigger] sl[i], 2, false, false) == Some(
        (2nat, false, false),
    ) by {
        if i == 4 {
            assert(sl[i] == "        environment = "@ + in_quotes(c.service.environment->0));
        }
    }
    lemma_scan_joined(sl, 2);
    assert("    }"@ =~= "    "@ + seq!['}']) by {
        reveal_strlit("    ");
    }
    reveal_strlit("    ");
    lemma_scan_plain("    "@, 2);
    lemma_scan_one('}', 2, false, false);
    lemma_scan_append("    "@, seq!['}'], 2, false, false);
    lemma_scan_append("    }"@, seq!['\n'], 2, false, false);
}

/// In text that starts with the version line, a blank line and the project
/// line, the project block is found at the project line and its scan starts at
/// the brace that ends that line.
proof fn lemma_head_scan(v: nat, name: Seq<char>, y: Seq<char>)
    requires
        forall|i: int| 0 <= i < name.len() ==> name[i] != '{',
    ensures
        ({
            let l0 = "infra "@ + decimal(v);
            let l2 = "project "@ + in_quotes(name) + " {"@;
            let x = l0 + seq!['\n', '\n'] + l2 + seq!['\n'];
            let s = x + y;
            let ps = l0.len() + 2int;
            &&& find_from(s, "project \""@, 0) == Some(ps)
            &&& first_index(s.subrange(ps, s.len() as int), '{') == name.len() + 11
            &&& close_index(s, ps + name.len() + 11, 0, false, false) == close_index(
                s,
                x.len() as int,
                1,
                false,
                false,
            )
        }),
{
    let l0 = "infra "@ + decimal(v);
    let l2 = "project "@ + in_quotes(name) + " {"@;
    let x = l0 + seq!['\n', '\n'] + l2 + seq!['\n'];
    let s = x + y;
    reveal_strlit("infra ");
    reveal_strlit("project ");
    reveal_strlit(" {");
    reveal_strlit("project \"");
    lemma_decimal(v);
    let p = "project \""@;
    let ps: int = l0.len() + 2int;
    let np: int = name.len() as int;
    assert(l2.len() == np + 12);
    assert forall|k: int| 0 <= k < 9 implies s[ps + k] == p[k] by {
        assert(s[ps + k] == l2[k]);
    }
    assert(s.subrange(ps, ps + 9) =~= p);
    assert(occurs_at(s, p, ps));
    assert forall|j: int| 0 <= j < ps implies !occurs_at(s, p, j) by {
        if occurs_at(s, p, j) {
            assert(s.subrange(j, j + 9)[0] == s[j]);
            if 6 <= j < l0.len() {
                assert(s[j] == decimal(v)[j - 6]);
                assert(is_digit(decimal(v)[j - 6]));
            }
        }
    }
    lemma_find_from(s, p, 0);
    let t = s.subrange(ps, s.len() as int);
    let k0: int = np + 11;
    assert forall|j: int| 0 <= j < k0 implies t[j] != '{' by {
        assert(t[j] == l2[j]);
        if 9 <= j < 9 + np {
            assert(l2[j] == name[j - 9]);
        }
    }
    assert(t[k0] == l2[k0]);
    lemma_first_index_is(t, '{', k0);
    let bs = ps + k0;
    assert(s[bs] == '{');
    assert(s[bs + 1] == '\n');
    assert(bs + 2 == x.len());
    assert(find_from(s, p, 0) == Some(ps));
    assert(first_index(t, '{') == k0);
    assert(close_index(s, bs, 0, false, false) == close_index(s, bs + 1, 1, false, false));
    assert(close_index(s, bs + 1, 1, false, false) == close_index(s, bs + 2, 1, false, false));
}

/// Scanning the rest of the project block from just after its opening brace
/// stops at the last brace of the core.
proof fn lemma_block_close(c: ProjectConfigView, x: Seq<char>, tail: Seq<char>)
    requires
        renders_faithfully(c),
    ensures
        ({
            let jr = joined(runtime_lines(c));
            let j5 = core_lines(c)[5] + seq!['\n'];
            let js = joined(service_lines(c));
            let jc = "    }"@ + seq!['\n'];
            let jl = "}"@ + seq!['\n'];
            let s = x + jr + j5 + js + jc + jl + tail;
            close_index(s, x.len() as int, 1, false, false) == Ok::<int, ConfigError>(
                (x.len() + jr.len() + j5.len() + js.len() + jc.len() + 1) as int,
            )
        }),
{
    lemma_scan_block(c);
    let jr = joined(runtime_lines(c));
    let j5 = core_lines(c)[5] + seq!['\n'];
    let js = joined(service_lines(c));
    let jc = "    }"@ + seq!['\n'];
    let jl = "}"@ + seq!['\n'];
    let s = x + jr + j5 + js + jc + jl + tail;
    reveal_strlit("}");
    let rest1 = j5 + js + jc + jl + tail;
    assert(x + jr + rest1 =~= s);
    lemma_close_through(x, jr, rest1, 1, false, false);
    let a2 = x + jr;
    let rest2 = js + jc + jl + tail;
    assert(a2 + j5 + rest2 =~= s);
    lemma_close_through(a2, j5, rest2, 1, false, false);
    let a3 = a2 + j5;
    let rest3 = jc + jl + tail;
    assert(a3 + js + rest3 =~= s);
    lemma_close_through(a3, js, rest3, 2, false, false);
    let a4 = a3 + js;
    let rest4 = jl + tail;
    assert(a4 + jc + rest4 =~= s);
    lemma_close_through(a4, jc, rest4, 2, false, false);
    let idx: int = (a4.len() + jc.len()) as int;
    assert(s[idx] == '}');
    assert(close_index(s, idx, 1, false, false) == Ok::<int, ConfigError>(idx + 1));
}

/// The scan of a rendered core stops at its last brace, whatever follows it.
proof fn lemma_core_end(c: ProjectConfigView, tail: Seq<char>)
    requires
        renders_faithfully(c),
    ensures
        core_end(rendered_core(c) + tail) == Ok::<int, ConfigError>(rendered_core(c).len() - 1),
{
    lemma_core_text(c);
    let cl = core_lines(c);
    let x = joined(head_lines(c));
    let jr = joined(runtime_lines(c));
    let j5 = cl[5] + seq!['\n'];
    let js = joined(service_lines(c));
    let jc = "    }"@ + seq!['\n'];
    let jl = "}"@ + seq!['\n'];
    let s = rendered_core(c) + tail;
    let y = jr + j5 + js + jc + jl + tail;
    assert(s =~= x + y);
    assert(x == ("infra "@ + decimal(c.version)) + seq!['\n', '\n'] + ("project "@ + in_quotes(
        c.project,
    ) + " {"@) + seq!['\n']);
    lemma_head_scan(c.version, c.project, y);
    lemma_block_close(c, x, tail);
    assert(x + jr + j5 + js + jc + jl + tail =~= s);
    reveal_strlit("}");
}

/// No line feed in `l`.
spec fn no_lf(l: Seq<char>) -> bool {
    forall|j: int| 0 <= j < l.len() ==> l[j] != '\n'
}

proof fn lemma_no_lf_append(a: Seq<char>, b: Seq<char>)
    requires
        no_lf(a),
        no_lf(b),
    ensures
        no_lf(a + b),
{
    assert forall|j: int| 0 <= j < (a + b).len() implies (a + b)[j] != '\n' by {
        if j >= a.len() {
            assert((a + b)[j] == b[j - a.len()]);
        }
    }
}

/// A line with no line feed whose last character is `last`.
proof fn lemma_line_ok(l: Seq<char>, last: char)
    requires
        no_lf(l),
        l.len() > 0,
        l.last() == last,
        last != '\r',
    ensures
        first_index(l, '\n') == l.len(),
        strip_cr(l) == l,
{
    lemma_first_index_is(l, '\n', l.len() as int);
}

/// A keyword and a quotable value in quotes, then a suffix.
proof fn lemma_quoted_line_ok(kw: Seq<char>, v: Seq<char>, sfx: Seq<char>)
    requires
        no_lf(kw),
        no_lf(sfx),
        quotable(v),
    ensures
        no_lf(kw + in_quotes(v) + sfx),
        (kw + in_quotes(v) + sfx).len() > 0,
{
    assert(no_lf(seq!['"']));
    assert(no_lf(v));
    lemma_no_lf_append(seq!['"'], v);
    lemma_no_lf_append(seq!['"'] + v, seq!['"']);
    lemma_no_lf_append(kw, in_quotes(v));
    lemma_no_lf_append(kw + in_quotes(v), sfx);
}

/// Every line of the core is a single line.
proof fn lemma_core_lines_single(c: ProjectConfigView)
    requires
        renders_faithfully(c),
    ensures
        forall|i: int|
            0 <= i < core_lines(c).len() ==> first_index(#[trigger] core_lines(c)[i], '\n')
                == core_lines(c)[i].len() && strip_cr(core_lines(c)[i]) == core_lines(c)[i],
{
    let cl = core_lines(c);
    reveal_strlit("infra ");
    reveal_strlit("project ");
    reveal_strlit(" {");
    reveal_strlit("    runtime = ");
    reveal_strlit("    service ");
    reveal_strlit("        source = ");
    reveal_strlit("        build = ");
    reveal_strlit("        expose = ");
    reveal_strlit("        health = ");
    reveal_strlit("        environment = ");
    reveal_strlit("    }");
    reveal_strlit("}");
    lemma_decimal(c.version);
    lemma_decimal(c.service.port);
    assert(no_lf(decimal(c.version))) by {
        assert forall|j: int| 0 <= j < decimal(c.version).len() implies decimal(c.version)[j]
            != '\n' by {
            assert(is_digit(decimal(c.version)[j]));
        }
    }
    assert(no_lf(decimal(c.service.port))) by {
        assert forall|j: int| 0 <= j < decimal(c.service.port).len() implies decimal(
            c.service.port,
        )[j] != '\n' by {
            assert(is_digit(decimal(c.service.port)[j]));
        }
    }
    assert(no_lf("infra "@));
    lemma_no_lf_append("infra "@, decimal(c.version));
    assert(is_digit(decimal(c.version).last()));
    lemma_line_ok(cl[0], decimal(c.version).last());
    assert(no_lf(seq![]));
    lemma_quoted_line_ok("project "@, c.project, " {"@);
    lemma_line_ok(cl[2], '{');
    lemma_quoted_line_ok("    runtime = "@, c.runtime, seq![]);
    assert(cl[3] =~= "    runtime = "@ + in_quotes(c.runtime) + seq![]);
    lemma_line_ok(cl[3], '"');
    lemma_quoted_line_ok("    service "@, c.service.name, " {"@);
    lemma_line_ok(cl[5], '{');
    lemma_quoted_line_ok("        source = "@, c.service.source, seq![]);
    assert(cl[6] =~= "        source = "@ + in_quotes(c.service.source) + seq![]);
    lemma_line_ok(cl[6], '"');
    lemma_quoted_line_ok("        build = "@, c.service.build_file, seq![]);
    assert(cl[7] =~= "        build = "@ + in_quotes(c.service.build_file) + seq![]);
    lemma_line_ok(cl[7], '"');
    assert(no_lf("        expose = "@));
    lemma_no_lf_append("        expose = "@, decimal(c.service.port));
    assert(is_digit(decimal(c.service.port).last()));
    lemma_line_ok(cl[8], decimal(c.service.port).last());
    lemma_quoted_line_ok("        health = "@, c.service.health_path, seq![]);
    assert(cl[9] =~= "        health = "@ + in_quotes(c.service.health_path) + seq![]);
    lemma_line_ok(cl[9], '"');
    match c.service.environment {
        Some(e) => {
            lemma_quoted_line_ok("        environment = "@, e, seq![]);
            assert(cl[10] =~= "        environment = "@ + in_quotes(e) + seq![]);
            lemma_line_ok(cl[10], '"');
            lemma_line_ok(cl[11], '}');
            lemma_line_ok(cl[12], '}');
        },
        None => {
            lemma_line_ok(cl[10], '}');
            lemma_line_ok(cl[11], '}');
        },
    }
    lemma_first_index_is(cl[1], '\n', 0);
    lemma_first_index_is(cl[4], '\n', 0);
    assert forall|i: int| 0 <= i < cl.len() implies first_index(#[trigger] cl[i], '\n')
        == cl[i].len() && strip_cr(cl[i]) == cl[i] by {
        if i == 1 || i == 4 {
            assert(cl[i] == Seq::<char>::empty());
        }
    }
}

/// The lines of a rendered core, without its last line feed, are the core lines.
proof fn lemma_core_lines(c: ProjectConfigView)
    requires
        renders_faithfully(c),
    ensures
        rendered_core(c).len() >= 1,
        lines(rendered_core(c).subrange(0, rendered_core(c).len() - 1)) == core_lines(c),
{
    let cl = core_lines(c);
    lemma_core_lines_single(c);
    lemma_core_split(c);
    let n = cl.len() - 1;
    let cx = cl.take(n as int);
    assert(cl =~= cx + seq!["}"@]);
    lemma_joined_append(cx, seq!["}"@]);
    lemma_joined_one("}"@);
    reveal_strlit("}");
    let rc = rendered_core(c);
    assert(rc == joined(cx) + "}"@ + seq!['\n']);
    let core = rc.subrange(0, rc.len() - 1);
    assert(core =~= joined(cx) + "}"@);
    assert forall|i: int| 0 <= i < cx.len() implies first_index(#[trigger] cx[i], '\n')
        == cx[i].len() by {
        assert(cx[i] == cl[i]);
    }
    assert forall|i: int| 0 <= i < cx.len() implies strip_cr(#[trigger] cx[i]) == cx[i] by {
        assert(cx[i] == cl[i]);
    }
    lemma_lines_joined(cx, "}"@);
    lemma_first_index_is("}"@, '\n', 1);
    assert(lines("}"@) == seq!["}"@]);
}

proof fn lemma_prefix(t: Seq<char>, q: Seq<char>)
    requires
        q.len() <= t.len(),
        forall|i: int| 0 <= i < q.len() ==> t[i] == q[i],
    ensures
        has_prefix(t, q),
{
    assert(t.subrange(0, q.len() as int) =~= q);
}

proof fn lemma_not_prefix(t: Seq<char>, q: Seq<char>, i: int)
    requires
        0 <= i < q.len(),
        i < t.len() ==> t[i] != q[i],
    ensures
        !has_prefix(t, q),
{
    if has_prefix(t, q) {
        assert(t.subrange(0, q.len() as int)[i] == t[i]);
    }
}

/// The first quoted text of a line is the value after its keyword.
proof fn lemma_first_quoted(kw: Seq<char>, v: Seq<char>, sfx: Seq<char>)
    requires
        forall|i: int| 0 <= i < kw.len() ==> kw[i] != '"',
        quotable(v),
    ensures
        first_quoted(kw + in_quotes(v) + sfx) == Some(v),
{
    let l = kw + in_quotes(v) + sfx;
    lemma_first_index_is(l, '"', kw.len() as int);
    let rest = l.subrange(kw.len() + 1int, l.len() as int);
    assert(rest =~= v + seq!['"'] + sfx);
    lemma_first_index_is(rest, '"', v.len() as int);
    assert(rest.subrange(0, v.len() as int) =~= v);
}

/// Reading one line of the core, the step from the lines before it.
proof fn lemma_absorb_step(ls: Seq<Seq<char>>, k: int)
    requires
        0 <= k < ls.len(),
    ensures
        absorb_lines(ls.take(k + 1)) == match absorb_lines(ls.take(k)) {
            Ok(st) => absorb_line(st, trim(ls[k])),
            Err(e) => Err(e),
        },
{
    assert(ls.take(k + 1).drop_last() =~= ls.take(k));
    assert(ls.take(k + 1).last() == ls[k]);
}

/// An indented line is its text once trimmed.
proof fn lemma_trim_indented(pad: Seq<char>, body: Seq<char>)
    requires
        all_ws(pad),
        body.len() > 0,
        !is_ws(body[0]),
        !is_ws(body.last()),
    ensures
        trim(pad + body) == body,
{
    lemma_trim_framed(pad, body, seq![]);
    assert(pad + body + seq![] =~= pad + body);
}

/// The closing lines and blank lines of the core add nothing.
proof fn lemma_absorb_plain(st: GeneratedFields)
    ensures
        absorb_line(st, trim(seq![])) == Ok::<_, ConfigError>(st),
        absorb_line(st, trim("    }"@)) == Ok::<_, ConfigError>(st),
        absorb_line(st, trim("}"@)) == Ok::<_, ConfigError>(st),
{
    reveal_strlit("    }");
    reveal_strlit("    ");
    reveal_strlit("}");
    reveal_strlit("infra ");
    reveal_strlit("project ");
    reveal_strlit("runtime =");
    reveal_strlit("service ");
    reveal_strlit("source =");
    reveal_strlit("build =");
    reveal_strlit("expose = ");
    reveal_strlit("health =");
    reveal_strlit("environment =");
    lemma_trim_framed(seq![], seq![], seq![]);
    assert(Seq::<char>::empty() + Seq::<char>::empty() + Seq::<char>::empty() =~= Seq::<
        char,
    >::empty());
    assert("    }"@ =~= "    "@ + "}"@);
    assert(all_ws("    "@));
    lemma_trim_indented("    "@, "}"@);
    lemma_trim_indented(seq![], "}"@);
    assert(Seq::<char>::empty() + "}"@ =~= "}"@);
    let t = "}"@;
    lemma_not_prefix(t, "infra "@, 0);
    lemma_not_prefix(t, "project "@, 0);
    lemma_not_prefix(t, "runtime ="@, 0);
    lemma_not_prefix(t, "service "@, 0);
    lemma_not_prefix(t, "source ="@, 0);
    lemma_not_prefix(t, "build ="@, 0);
    lemma_not_prefix(t, "expose = "@, 0);
    lemma_not_prefix(t, "health ="@, 0);
    lemma_not_prefix(t, "environment ="@, 0);
}

/// The project line gives the project name.
proof fn lemma_absorb_project(st: GeneratedFields, v: Seq<char>)
    requires
        quotable(v),
    ensures
        absorb_line(st, trim("project "@ + in_quotes(v) + " {"@)) == Ok::<_, ConfigError>(
            GeneratedFields { project: Some(v), ..st },
        ),
{
    reveal_strlit("infra ");
    reveal_strlit("project ");
    reveal_strlit("runtime =");
    reveal_strlit("service ");
    reveal_strlit("source =");
    reveal_strlit("build =");
    reveal_strlit("expose = ");
    reveal_strlit("health =");
    reveal_strlit("environment =");
    reveal_strlit(" {");
    let t = "project "@ + in_quotes(v) + " {"@;
    reveal_strlit("project ");
    lemma_trim_indented(seq![], t);
    assert(Seq::<char>::empty() + t =~= t);
    lemma_not_prefix(t, "infra "@, 0);
    lemma_prefix(t, "project "@);
    lemma_first_quoted("project "@, v, " {"@);
}

/// The runtime line gives the runtime.
proof fn lemma_absorb_runtime(st: GeneratedFields, v: Seq<char>)
    requires
        quotable(v),
    ensures
        absorb_line(st, trim("    runtime = "@ + in_quotes(v))) == Ok::<_, ConfigError>(
            GeneratedFields { runtime: Some(v), ..st },
        ),
{
    reveal_strlit("infra ");
    reveal_strlit("project ");
    reveal_strlit("runtime =");
    reveal_strlit("service ");
    reveal_strlit("source =");
    reveal_strlit("build =");
    reveal_strlit("expose = ");
    reveal_strlit("health =");
    reveal_strlit("environment =");
    let t = "runtime = "@ + in_quotes(v);
    reveal_strlit("runtime = ");
    reveal_strlit("    ");
    reveal_strlit("    runtime = ");
    assert("    runtime = "@ + in_quotes(v) =~= "    "@ + t);
    assert(all_ws("    "@));
    lemma_trim_indented("    "@, t);
    lemma_not_prefix(t, "infra "@, 0);
    lemma_not_prefix(t, "project "@, 0);
    lemma_prefix(t, "runtime ="@);
    lemma_first_quoted("runtime = "@, v, seq![]);
    assert(t + seq![] =~= t);
}

/// The service line gives the service name.
proof fn lemma_absorb_service(st: GeneratedFields, v: Seq<char>)
    requires
        quotable(v),
    ensures
        absorb_line(st, trim("    service "@ + in_quotes(v) + " {"@)) == Ok::<_, ConfigError>(
            GeneratedFields { service: Some(v), ..st },
        ),
{
    reveal_strlit("infra ");
    reveal_strlit("project ");
    reveal_strlit("runtime =");
    reveal_strlit("service ");
    reveal_strlit("source =");
    reveal_strlit("build =");
    reveal_strlit("expose = ");
    reveal_strlit("health =");
    reveal_strlit("environment =");
    reveal_strlit(" {");
    let t = "service "@ + in_quotes(v) + " {"@;
    reveal_strlit("service ");
    reveal_strlit("    ");
    reveal_strlit("    service ");
    assert("    service "@ + in_quotes(v) + " {"@ =~= "    "@ + t);
    assert(all_ws("    "@));
    lemma_trim_indented("    "@, t);
    lemma_not_prefix(t, "infra "@, 0);
    lemma_not_prefix(t, "project "@, 0);
    lemma_not_prefix(t, "runtime ="@, 0);
    lemma_prefix(t, "service "@);
    lemma_first_quoted("service "@, v, " {"@);
}

/// The source line gives the service source.
proof fn lemma_absorb_source(st: GeneratedFields, v: Seq<char>)
    requires
        quotable(v),
    ensures
        absorb_line(st, trim("        source = "@ + in_quotes(v))) == Ok::<_, ConfigError>(
            GeneratedFields { source: Some(v), ..st },
        ),
{
    reveal_strlit("infra ");
    reveal_strlit("project ");
    reveal_strlit("runtime =");
    reveal_strlit("service ");
    reveal_strlit("source =");
    reveal_strlit("build =");
    reveal_strlit("expose = ");
    reveal_strlit("health =");
    reveal_strlit("environment =");
    let t = "source = "@ + in_quotes(v);
    reveal_strlit("source = ");
    reveal_strlit("        ");
    reveal_strlit("        source = ");
    assert("        source = "@ + in_quotes(v) =~= "        "@ + t);
    assert(all_ws("        "@));
    lemma_trim_indented("        "@, t);
    lemma_not_prefix(t, "infra "@, 0);
    lemma_not_prefix(t, "project "@, 0);
    lemma_not_prefix(t, "runtime ="@, 0);
    lemma_not_prefix(t, "service "@, 1);
    lemma_prefix(t, "source ="@);
    lemma_first_quoted("source = "@, v, seq![]);
    assert(t + seq![] =~= t);
}

/// The build line gives the build file.
proof fn lemma_absorb_build(st: GeneratedFields, v: Seq<char>)
    requires
        quotable(v),
    ensures
        absorb_line(st, trim("        build = "@ + in_quotes(v))) == Ok::<_, ConfigError>(
            GeneratedFields { build_file: Some(v), ..st },
        ),
{
    reveal_strlit("infra ");
    reveal_strlit("project ");
    reveal_strlit("runtime =");
    reveal_strlit("service ");
    reveal_strlit("source =");
    reveal_strlit("build =");
    reveal_strlit("expose = ");
    reveal_strlit("health =");
    reveal_strlit("environment =");
    let t = "build = "@ + in_quotes(v);
    reveal_strlit("build = ");
    reveal_strlit("        ");
    reveal_strlit("        build = ");
    assert("        build = "@ + in_quotes(v) =~= "        "@ + t);
    assert(all_ws("        "@));
    lemma_trim_indented("        "@, t);
    lemma_not_prefix(t, "infra "@, 0);
    lemma_not_prefix(t, "project "@, 0);
    lemma_not_prefix(t, "runtime ="@, 0);
    lemma_not_prefix(t, "service "@, 0);
    lemma_not_prefix(t, "source ="@, 0);
    lemma_prefix(t, "build ="@);
    lemma_first_quoted("build = "@, v, seq![]);
    assert(t + seq![] =~= t);
}

/// The health line gives the health path.
proof fn lemma_absorb_health(st: GeneratedFields, v: Seq<char>)
    requires
        quotable(v),
    ensures
        absorb_line(st, trim("        health = "@ + in_quotes(v))) == Ok::<_, ConfigError>(
            GeneratedFields { health_path: Some(v), ..st },
        ),
{
    reveal_strlit("infra ");
    reveal_strlit("project ");
    reveal_strlit("runtime =");
    reveal_strlit("service ");
    reveal_strlit("source =");
    reveal_strlit("build =");
    reveal_strlit("expose = ");
    reveal_strlit("health =");
    reveal_strlit("environment =");
    let t = "health = "@ + in_quotes(v);
    reveal_strlit("health = ");
    reveal_strlit("        ");
    reveal_strlit("        health = ");
    assert("        health = "@ + in_quotes(v) =~= "        "@ + t);
    assert(all_ws("        "@));
    lemma_trim_indented("        "@, t);
    lemma_not_prefix(t, "infra "@, 0);
    lemma_not_prefix(t, "project "@, 0);
    lemma_not_prefix(t, "runtime ="@, 0);
    lemma_not_prefix(t, "service "@, 0);
    lemma_not_prefix(t, "source ="@, 0);
    lemma_not_prefix(t, "build ="@, 0);
    lemma_not_prefix(t, "expose = "@, 0);
    lemma_prefix(t, "health ="@);
    lemma_first_quoted("health = "@, v, seq![]);
    assert(t + seq![] =~= t);
}

/// The environment line gives the environment file.
proof fn lemma_absorb_environment(st: GeneratedFields, v: Seq<char>)
    requires
        quotable(v),
    ensures
        absorb_line(st, trim("        environment = "@ + in_quotes(v))) == Ok::<_, ConfigError>(
            GeneratedFields { environment: Some(v), ..st },
        ),
{
    reveal_strlit("infra ");
    reveal_strlit("project ");
    reveal_strlit("runtime =");
    reveal_strlit("service ");
    reveal_strlit("source =");
    reveal_strlit("build =");
    reveal_strlit("expose = ");
    reveal_strlit("health =");
    reveal_strlit("environment =");
    let t = "environment = "@ + in_quotes(v);
    reveal_strlit("environment = ");
    reveal_strlit("        ");
    reveal_strlit("        environment = ");
    assert("        environment = "@ + in_quotes(v) =~= "        "@ + t);
    assert(all_ws("        "@));
    lemma_trim_indented("        "@, t);
    lemma_not_prefix(t, "infra "@, 0);
    lemma_not_prefix(t, "project "@, 0);
    lemma_not_prefix(t, "runtime ="@, 0);
    lemma_not_prefix(t, "service "@, 0);
    lemma_not_prefix(t, "source ="@, 0);
    lemma_not_prefix(t, "build ="@, 0);
    lemma_not_prefix(t, "expose = "@, 1);
    lemma_not_prefix(t, "health ="@, 0);
    lemma_prefix(t, "environment ="@);
    lemma_first_quoted("environment = "@, v, seq![]);
    assert(t + seq![] =~= t);
}

/// The version line gives the version.
proof fn lemma_absorb_version(st: GeneratedFields, v: nat)
    requires
        v <= 255,
    ensures
        absorb_line(st, trim("infra "@ + decimal(v))) == Ok::<_, ConfigError>(
            GeneratedFields { version: Some(v), ..st },
        ),
{
    reveal_strlit("infra ");
    lemma_decimal(v);
    let t = "infra "@ + decimal(v);
    assert(is_digit(decimal(v).last()));
    lemma_trim_indented(seq![], t);
    assert(Seq::<char>::empty() + t =~= t);
    lemma_prefix(t, "infra "@);
    assert(after(t, "infra "@) =~= decimal(v));
    lemma_unsigned_decimal(v, 255);
}

/// The expose line gives the port.
proof fn lemma_absorb_expose(st: GeneratedFields, port: nat)
    requires
        port <= 65535,
    ensures
        absorb_line(st, trim("        expose = "@ + decimal(port))) == Ok::<_, ConfigError>(
            GeneratedFields { port: Some(port), ..st },
        ),
{
    reveal_strlit("infra ");
    reveal_strlit("project ");
    reveal_strlit("runtime =");
    reveal_strlit("service ");
    reveal_strlit("source =");
    reveal_strlit("build =");
    reveal_strlit("expose = ");
    reveal_strlit("health =");
    reveal_strlit("environment =");
    reveal_strlit("        ");
    reveal_strlit("        expose = ");
    lemma_decimal(port);
    let t = "expose = "@ + decimal(port);
    assert("        expose = "@ + decimal(port) =~= "        "@ + t);
    assert(all_ws("        "@));
    assert(is_digit(decimal(port).last()));
    lemma_trim_indented("        "@, t);
    lemma_not_prefix(t, "infra "@, 0);
    lemma_not_prefix(t, "project "@, 0);
    lemma_not_prefix(t, "runtime ="@, 0);
    lemma_not_prefix(t, "service "@, 0);
    lemma_not_prefix(t, "source ="@, 0);
    lemma_not_prefix(t, "build ="@, 0);
    lemma_prefix(t, "expose = "@);
    assert(after(t, "expose = "@) =~= decimal(port));
    lemma_unsigned_decimal(port, 65535);
}

/// The fields that reading the core lines of `c` collects.
spec fn fields_of(c: ProjectConfigView) -> GeneratedFields {
    GeneratedFields {
        version: Some(c.version),
        project: Some(c.project),
        runtime: Some(c.runtime),
        service: Some(c.service.name),
        source: Some(c.service.source),
        build_file: Some(c.service.build_file),
        port: Some(c.service.port),
        health_path: Some(c.service.health_path),
        environment: c.service.environment,
    }
}

/// Reading the core lines collects every field of the configuration.
proof fn lemma_absorb_core(c: ProjectConfigView)
    requires
        renders_faithfully(c),
    ensures
        absorb_lines(core_lines(c)) == Ok::<_, ConfigError>(fields_of(c)),
{
    let cl = core_lines(c);
    lemma_core_split(c);
    assert(cl.take(0) =~= Seq::<Seq<char>>::empty());
    let st0 = no_fields();
    lemma_absorb_step(cl, 0);
    lemma_absorb_version(st0, c.version);
    let st1 = GeneratedFields { version: Some(c.version), ..st0 };
    lemma_absorb_step(cl, 1);
    lemma_absorb_plain(st1);
    lemma_absorb_step(cl, 2);
    lemma_absorb_project(st1, c.project);
    let st2 = GeneratedFields { project: Some(c.project), ..st1 };
    lemma_absorb_step(cl, 3);
    lemma_absorb_runtime(st2, c.runtime);
    let st3 = GeneratedFields { runtime: Some(c.runtime), ..st2 };
    lemma_absorb_step(cl, 4);
    lemma_absorb_plain(st3);
    lemma_absorb_step(cl, 5);
    lemma_absorb_service(st3, c.service.name);
    let st4 = GeneratedFields { service: Some(c.service.name), ..st3 };
    lemma_absorb_step(cl, 6);
    lemma_absorb_source(st4, c.service.source);
    let st5 = GeneratedFields { source: Some(c.service.source), ..st4 };
    lemma_absorb_step(cl, 7);
    lemma_absorb_build(st5, c.service.build_file);
    let st6 = GeneratedFields { build_file: Some(c.service.build_file), ..st5 };
    lemma_absorb_step(cl, 8);
    lemma_absorb_expose(st6, c.service.port);
    let st7 = GeneratedFields { port: Some(c.service.port), ..st6 };
    lemma_absorb_step(cl, 9);
    lemma_absorb_health(st7, c.service.health_path);
    let st8 = GeneratedFields { health_path: Some(c.service.health_path), ..st7 };
    assert(absorb_lines(cl.take(10)) == Ok::<_, ConfigError>(st8));
    match c.service.environment {
        Some(e) => {
            lemma_absorb_step(cl, 10);
            lemma_absorb_environment(st8, e);
            let st9 = GeneratedFields { environment: Some(e), ..st8 };
            assert(absorb_lines(cl.take(11)) == Ok::<_, ConfigError>(st9));
            lemma_absorb_step(cl, 11);
            lemma_absorb_plain(st9);
            lemma_absorb_step(cl, 12);
            assert(cl.take(13) =~= cl);
            assert(st9 == fields_of(c));
        },
        None => {
            lemma_absorb_step(cl, 10);
            lemma_absorb_plain(st8);
            lemma_absorb_step(cl, 11);
            assert(cl.take(12) =~= cl);
            assert(st8 == fields_of(c));
        },
    }
}

/// The text after the core of a rendered file, trimmed, is the extensions.
proof fn lemma_rendered_tail(c: ProjectConfigView)
    requires
        c.extensions == trim(c.extensions),
    ensures
        rendered(c) == rendered_core(c) + (if c.extensions.len() == 0 {
            Seq::<char>::empty()
        } else {
            seq!['\n'] + c.extensions + seq!['\n']
        }),
        trim(seq!['\n'] + (if c.extensions.len() == 0 {
            Seq::<char>::empty()
        } else {
            seq!['\n'] + c.extensions + seq!['\n']
        })) == c.extensions,
{
    reveal_strlit("\n");
    let ext = c.extensions;
    lemma_trim_unpadded(ext);
    assert(all_ws(seq!['\n']));
    assert(all_ws(seq!['\n', '\n']));
    if ext.len() == 0 {
        assert(rendered(c) =~= rendered_core(c) + Seq::<char>::empty());
        lemma_trim_framed(seq!['\n'], ext, seq![]);
        assert(seq!['\n'] + ext + Seq::<char>::empty() =~= seq!['\n'] + Seq::<char>::empty());
    } else {
        assert(rendered(c) =~= rendered_core(c) + (seq!['\n'] + ext + seq!['\n']));
        lemma_trim_framed(seq!['\n', '\n'], ext, seq!['\n']);
        assert(seq!['\n', '\n'] + ext + seq!['\n'] =~= seq!['\n'] + (seq!['\n'] + ext + seq![
            '\n',
        ]));
    }
}

/// A configuration written by `render` reads back as itself, whenever its text
/// fields can stand between double quotes on one line, its project name holds
/// no `{`, and its extensions carry no surrounding whitespace (they are written
/// trimmed).
pub proof fn law_render_round_trip(c: ProjectConfigView)
    requires
        renders_faithfully(c),
    ensures
        generated_config(rendered(c)) == Ok::<_, ConfigError>(c),
{
    let rc = rendered_core(c);
    let tail = if c.extensions.len() == 0 {
        Seq::<char>::empty()
    } else {
        seq!['\n'] + c.extensions + seq!['\n']
    };
    lemma_rendered_tail(c);
    let s = rc + tail;
    lemma_core_end(c, tail);
    lemma_core_lines(c);
    lemma_core_text(c);
    let e = rc.len() - 1;
    assert(rc[e] == '\n');
    assert(s.subrange(0, e) =~= rc.subrange(0, e));
    assert(s.subrange(e, s.len() as int) =~= seq!['\n'] + tail);
    assert(core_and_extensions(s) == Ok::<_, ConfigError>((rc.subrange(0, e), c.extensions)));
    lemma_absorb_core(c);
    assert(assemble(fields_of(c), c.extensions) == Ok::<_, ConfigError>(c));
}

/// Writing a configuration without extensions of its own over a file keeps the
/// application-owned blocks of that file: the text written reads back as the
/// configuration with those blocks.
pub proof fn law_replacement_keeps_extensions(c: ProjectConfigView, existing: Seq<char>)
    requires
        renders_faithfully(ProjectConfigView { extensions: seq![], ..c }),
        trim(c.extensions).len() == 0,
        core_and_extensions(existing) is Ok,
    ensures
        ({
            let split = core_and_extensions(existing)->Ok_0;
            let ext = split.1;
            replacement(c, Some(existing)) == Ok::<_, ConfigError>(
                rendered(ProjectConfigView { extensions: ext, ..c }),
            ) && generated_config(replacement(c, Some(existing))->Ok_0) == Ok::<_, ConfigError>(
                ProjectConfigView { extensions: ext, ..c },
            )
        }),
{
    let (core, ext) = core_and_extensions(existing)->Ok_0;
    let e = core_end(existing)->Ok_0;
    lemma_trim_idempotent(existing.subrange(e, existing.len() as int));
    law_render_round_trip(ProjectConfigView { extensions: ext, ..c });
}

/// The last `c` of `a + b` lies in `a` when `b` holds no `c`.
proof fn lemma_last_index_before(a: Seq<char>, b: Seq<char>, c: char)
    requires
        forall|i: int| 0 <= i < b.len() ==> b[i] != c,
    ensures
        last_index(a + b, c) == last_index(a, c),
    decreases b.len(),
{
    if b.len() == 0 {
        assert(a + b =~= a);
    } else {
        assert((a + b).drop_last() =~= a + b.drop_last());
        assert((a + b).last() == b.last());
        lemma_last_index_before(a, b.drop_last(), c);
    }
}

/// Resolving a path that was already resolved gives it back: a resolved path
/// always names a `.infra` file.
pub proof fn law_resolve_idempotent(p: Seq<char>)
    ensures
        resolved_path(resolved_path(p)) == resolved_path(p),
{
    let q = resolved_path(p);
    if q != p {
        let name = infra_file_name();
        assert(q == join(p, name));
        let dir = if p.len() > 0 && p.last() != '/' {
            p.push('/')
        } else {
            p
        };
        assert(q =~= dir + name);
        assert(forall|i: int| 0 <= i < name.len() ==> name[i] != '/');
        lemma_last_index_before(dir, name, '/');
        lemma_last_index(dir, '/');
        assert(q.len() > 0 && q.last() == 'a');
        let k = last_index(q, '/');
        let seg = match k {
            Some(k) => q.subrange(k + 1, q.len() as int),
            None => q,
        };
        if dir.len() > 0 {
            assert(dir.last() == '/');
            assert(k == Some(dir.len() - 1));
            assert(seg =~= name);
        } else {
            assert(k is None);
            assert(q =~= name);
        }
        assert(seg != seq!['.'] && seg != seq!['.', '.']);
        assert(file_name(q) == Some(name));
    }
}

} // verus!
