//! What holds of the configuration dialogue across answers.
use crate::config::ServiceConfigView;
use crate::config_laws::lemma_unsigned_decimal;
use crate::text::{is_ws, trim, trim_end, trim_start, unsigned_value};
use crate::wizard::{answered, is_word, optional_value, or_default, yes_no, Stage, WizardError, WizardView};
use vstd::prelude::*;

verus! {

/// The edit stages whose answer is a value with the current one as default.
pub open spec fn edits_value(s: Stage) -> bool {
    s == Stage::EditBuildFile || s == Stage::EditServiceName || s == Stage::EditPort || s
        == Stage::EditHealthPath || s == Stage::EditEnvironment
}

/// In edit mode, pressing Enter keeps the current value and moves on, except
/// that a current environment spelled `none` reads as no environment.
pub proof fn law_enter_keeps_current_value(w: WizardView, line: Seq<char>)
    requires
        trim(line).len() == 0,
        w.config.service.port <= 65535,
        edits_value(w.stage) || w.stage == Stage::EditOutput,
        w.stage == Stage::EditEnvironment ==> !(w.config.service.environment matches Some(e)
            && is_word(e, "none"@)),
    ensures
        answered(w, line).config == w.config,
        answered(w, line).stage != w.stage,
        !(answered(w, line).stage is Failed),
        w.stage == Stage::EditOutput ==> answered(w, line).stage == Stage::Review,
{
    let svc = w.config.service;
    if w.stage == Stage::EditPort {
        lemma_unsigned_decimal(svc.port, 65535);
    }
    if w.stage == Stage::EditEnvironment {
        reveal_strlit("none");
        assert(is_word("none"@, "none"@));
        assert(optional_value(line, svc.environment) == svc.environment);
    }
    assert(ServiceConfigView { build_file: svc.build_file, ..svc } == svc);
}

/// The letter `c` in lower case, when it is an ASCII capital.
pub open spec fn lower_char(c: char) -> char {
    if 65 <= c as u32 <= 90 {
        ((c as u32) + 32) as char
    } else {
        c
    }
}

/// `s` with its ASCII capitals in lower case (`str::to_ascii_lowercase`).
pub open spec fn ascii_lower(s: Seq<char>) -> Seq<char> {
    s.map_values(|c: char| lower_char(c))
}

proof fn lemma_lower_char(c: char)
    ensures
        65 <= c as u32 <= 90 ==> lower_char(c) as u32 == (c as u32) + 32,
        !(65 <= c as u32 <= 90) ==> lower_char(c) == c,
        !(65 <= lower_char(c) as u32 <= 90),
{
    if 65 <= c as u32 <= 90 {
        assert((((c as u32) + 32) as char) as u32 == (c as u32) + 32);
    }
}

proof fn lemma_lower_ws(c: char)
    ensures
        is_ws(lower_char(c)) == is_ws(c),
{
}

proof fn lemma_trim_start_lower(s: Seq<char>)
    ensures
        trim_start(ascii_lower(s)) == ascii_lower(trim_start(s)),
    decreases s.len(),
{
    if s.len() > 0 {
        lemma_lower_ws(s[0]);
        assert(ascii_lower(s).drop_first() =~= ascii_lower(s.drop_first()));
        lemma_trim_start_lower(s.drop_first());
    } else {
        assert(ascii_lower(s) =~= s);
    }
}

proof fn lemma_trim_end_lower(s: Seq<char>)
    ensures
        trim_end(ascii_lower(s)) == ascii_lower(trim_end(s)),
    decreases s.len(),
{
    if s.len() > 0 {
        lemma_lower_ws(s.last());
        assert(ascii_lower(s).drop_last() =~= ascii_lower(s.drop_last()));
        lemma_trim_end_lower(s.drop_last());
    } else {
        assert(ascii_lower(s) =~= s);
    }
}

proof fn lemma_trim_lower(s: Seq<char>)
    ensures
        trim(ascii_lower(s)) == ascii_lower(trim(s)),
{
    lemma_trim_start_lower(s);
    lemma_trim_end_lower(trim_start(s));
}

/// A lower-case word has no ASCII capital.
pub open spec fn lower_word(w: Seq<char>) -> bool {
    forall|i: int| 0 <= i < w.len() ==> !(65 <= #[trigger] w[i] as u32 <= 90)
}

proof fn lemma_is_word_lower(v: Seq<char>, w: Seq<char>)
    requires
        lower_word(w),
    ensures
        is_word(ascii_lower(v), w) == is_word(v, w),
{
    let lv = ascii_lower(v);
    if is_word(v, w) {
        assert forall|i: int| 0 <= i < lv.len() implies lv[i] == w[i] || (65 <= lv[i] as u32 <= 90
            && (lv[i] as u32) + 32 == w[i] as u32) by {
            assert(lv[i] == lower_char(v[i]));
            lemma_lower_char(v[i]);
            assert(v[i] == w[i] || (65 <= v[i] as u32 <= 90 && (v[i] as u32) + 32 == w[i] as u32));
            assert(!(65 <= w[i] as u32 <= 90));
            if v[i] == w[i] {
                assert(lv[i] == v[i]);
            } else {
                assert(lv[i] as u32 == w[i] as u32);
                vstd::utf8::char_u32_cast(lv[i], lv[i] as u32);
                vstd::utf8::char_u32_cast(w[i], w[i] as u32);
            }
        }
    }
    if is_word(lv, w) {
        assert forall|i: int| 0 <= i < v.len() implies v[i] == w[i] || (65 <= v[i] as u32 <= 90 && (
        v[i] as u32) + 32 == w[i] as u32) by {
            assert(lv[i] == lower_char(v[i]));
            lemma_lower_char(v[i]);
        }
    }
}

proof fn lemma_choice_words()
    ensures
        lower_word("y"@),
        lower_word("yes"@),
        lower_word("n"@),
        lower_word("no"@),
        lower_word("e"@),
        lower_word("edit"@),
{
    reveal_strlit("y");
    reveal_strlit("yes");
    reveal_strlit("n");
    reveal_strlit("no");
    reveal_strlit("e");
    reveal_strlit("edit");
}

/// The stages whose answer is a choice.
pub open spec fn chooses(s: Stage) -> bool {
    s == Stage::AutoFill || s == Stage::Review || s == Stage::EditMore
}

/// Choices are case-insensitive: an answer to a yes/no or review question
/// has the same effect as the same answer in lower case.
pub proof fn law_choices_ignore_case(w: WizardView, line: Seq<char>)
    requires
        chooses(w.stage),
    ensures
        answered(w, ascii_lower(line)) == answered(w, line),
        yes_no(ascii_lower(line), true) == yes_no(line, true),
        yes_no(ascii_lower(line), false) == yes_no(line, false),
{
    lemma_trim_lower(line);
    lemma_choice_words();
    let v = trim(line);
    assert(ascii_lower(v).len() == v.len());
    lemma_is_word_lower(v, "y"@);
    lemma_is_word_lower(v, "yes"@);
    lemma_is_word_lower(v, "n"@);
    lemma_is_word_lower(v, "no"@);
    lemma_is_word_lower(v, "e"@);
    lemma_is_word_lower(v, "edit"@);
}

/// Typed values keep their case: a non-blank answer is taken as typed, less
/// its surrounding whitespace.
pub proof fn law_values_keep_case(line: Seq<char>, default: Seq<char>)
    requires
        trim(line).len() > 0,
    ensures
        or_default(line, default) == trim(line),
{
}

/// The stages whose answer is the value of one service field.
pub open spec fn asks_value(s: Stage) -> bool {
    edits_value(s) || s == Stage::ServiceName || s == Stage::BuildFile || s == Stage::Port || s
        == Stage::HealthPath || s == Stage::Environment
}

/// A non-blank answer to a field's question, first time round or in edit
/// mode, becomes that field's value as typed less its surrounding whitespace
/// (`none`, in any case, clears the environment; a port must read as a number
/// up to 65535, else the dialogue fails); every other field keeps its value,
/// and the dialogue moves to the next question.
pub proof fn law_typed_value_is_taken(w: WizardView, line: Seq<char>)
    requires
        asks_value(w.stage),
        trim(line).len() > 0,
    ensures
        ({
            let r = answered(w, line);
            let v = trim(line);
            let s = w.config.service;
            let t = r.config.service;
            &&& r.config.version == w.config.version
            &&& r.config.project == w.config.project
            &&& r.config.runtime == w.config.runtime
            &&& r.config.extensions == w.config.extensions
            &&& t.source == s.source
            &&& (w.stage == Stage::ServiceName || w.stage == Stage::EditServiceName) ==> t.name == v
            &&& !(w.stage == Stage::ServiceName || w.stage == Stage::EditServiceName) ==> t.name == s.name
            &&& (w.stage == Stage::BuildFile || w.stage == Stage::EditBuildFile) ==> t.build_file == v
            &&& !(w.stage == Stage::BuildFile || w.stage == Stage::EditBuildFile) ==> t.build_file
                == s.build_file
            &&& (w.stage == Stage::HealthPath || w.stage == Stage::EditHealthPath) ==> t.health_path
                == v
            &&& !(w.stage == Stage::HealthPath || w.stage == Stage::EditHealthPath) ==> t.health_path
                == s.health_path
            &&& (w.stage == Stage::Environment || w.stage == Stage::EditEnvironment) ==> t.environment
                == (if is_word(v, "none"@) {
                None
            } else {
                Some(v)
            })
            &&& !(w.stage == Stage::Environment || w.stage == Stage::EditEnvironment)
                ==> t.environment == s.environment
            &&& (w.stage == Stage::Port || w.stage == Stage::EditPort) ==> match unsigned_value(
                v,
                65535,
            ) {
                Some(p) => t.port == p && !(r.stage is Failed),
                None => t.port == s.port && r.stage == Stage::Failed(WizardError::InvalidPort),
            }
            &&& !(w.stage == Stage::Port || w.stage == Stage::EditPort) ==> t.port == s.port
            &&& w.stage == Stage::EditBuildFile ==> r.stage == Stage::EditMore
            &&& w.stage == Stage::EditServiceName ==> r.stage == Stage::EditPort
            &&& w.stage == Stage::EditHealthPath ==> r.stage == Stage::EditEnvironment
            &&& w.stage == Stage::EditEnvironment ==> r.stage == Stage::EditOutput
            &&& w.stage == Stage::ServiceName ==> r.stage == Stage::BuildFile
            &&& w.stage == Stage::BuildFile ==> r.stage == Stage::Port
            &&& w.stage == Stage::HealthPath ==> r.stage == Stage::Environment
            &&& w.stage == Stage::Environment ==> r.stage == Stage::Review
        }),
{
}

} // verus!
