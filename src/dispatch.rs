//! Classifying one input line and deciding what it leads to.
use vstd::prelude::*;

use crate::builtin::{builtin_named, Builtin};
use crate::resolver::{resolution, resolve};
use crate::text::{
    concat_str, first_white, first_white_index, has_prefix, is_white, parse_i32, parse_i32_spec,
    same_text, starts_with, trim, trim_end, trim_str,
};

verus! {

/// What an `exit` line asks for.
#[derive(Clone, Debug, PartialEq, Eq)]
pub enum ExitRequest {
    /// No code was given: exit with code 0 after saying so.
    Default,
    /// Exit with this code.
    Code(i32),
    /// The text after `exit` is not an integer.
    Malformed(String),
}

/// What one input line leads to. Only `Print` is complete in itself; the others
/// ask the caller to act on the process or the system.
#[derive(Clone, Debug, PartialEq, Eq)]
pub enum Outcome {
    /// End the process.
    Exit(ExitRequest),
    /// Print this line.
    Print(String),
    /// Report the current working directory.
    WorkingDirectory,
    /// Change the working directory to this path, as written on the line.
    ChangeDirectory(String),
    /// Run the executable at `path`, with `argument` as its only argument if present.
    Run { path: String, argument: Option<String> },
}

/// The mathematical form of an `ExitRequest`.
pub enum ExitModel {
    Default,
    Code(i32),
    Malformed(Seq<char>),
}

/// The mathematical form of an `Outcome`.
pub enum OutcomeModel {
    Exit(ExitModel),
    Print(Seq<char>),
    WorkingDirectory,
    ChangeDirectory(Seq<char>),
    Run { path: Seq<char>, argument: Option<Seq<char>> },
}

impl View for ExitRequest {
    type V = ExitModel;

    open spec fn view(&self) -> ExitModel {
        match self {
            ExitRequest::Default => ExitModel::Default,
            ExitRequest::Code(n) => ExitModel::Code(*n),
            ExitRequest::Malformed(s) => ExitModel::Malformed(s@),
        }
    }
}

impl View for Outcome {
    type V = OutcomeModel;

    open spec fn view(&self) -> OutcomeModel {
        match self {
            Outcome::Exit(e) => OutcomeModel::Exit(e@),
            Outcome::Print(s) => OutcomeModel::Print(s@),
            Outcome::WorkingDirectory => OutcomeModel::WorkingDirectory,
            Outcome::ChangeDirectory(p) => OutcomeModel::ChangeDirectory(p@),
            Outcome::Run { path, argument } => OutcomeModel::Run {
                path: path@,
                argument: argument.deep_view(),
            },
        }
    }
}

/// The first token of a line: everything before its first white space.
pub open spec fn head_token(t: Seq<char>) -> Seq<char> {
    t.take(first_white(t))
}

/// What follows the first token: empty, or starting with a white-space character.
pub open spec fn after_head(t: Seq<char>) -> Seq<char> {
    t.skip(first_white(t))
}

/// The single argument of an external command line: everything after the first
/// white-space character, if there is one.
pub open spec fn single_argument(t: Seq<char>) -> Option<Seq<char>> {
    if after_head(t).len() == 0 {
        None
    } else {
        Some(after_head(t).drop_first())
    }
}

/// The request of an `exit` line `t` (one whose first token is `exit`).
pub open spec fn exit_model(t: Seq<char>) -> ExitModel {
    let code = trim(after_head(t));
    if code.len() == 0 {
        ExitModel::Default
    } else {
        match parse_i32_spec(code) {
            Some(n) => ExitModel::Code(n),
            None => ExitModel::Malformed(code),
        }
    }
}

/// What `type` reports of `name`, given what resolution found.
pub open spec fn type_report(name: Seq<char>, resolved: Option<Seq<char>>) -> Seq<char> {
    if builtin_named(name) is Some {
        name + " is a shell "@ + "builtin"@
    } else {
        match resolved {
            Some(p) => name + " is "@ + p,
            None => name + ": not found"@,
        }
    }
}

/// What `type name` leads to, given the search path and the outcome of the probes.
pub open spec fn type_model(name: Seq<char>, search_path: Option<Seq<char>>, found: Seq<bool>) -> Seq<char> {
    type_report(name, resolution(search_path, name, found))
}

/// What the external command line `t` leads to, given what resolving its first
/// token gave.
pub open spec fn external_choice(t: Seq<char>, resolved: Option<Seq<char>>) -> OutcomeModel {
    match resolved {
        Some(p) => OutcomeModel::Run { path: p, argument: single_argument(t) },
        None => OutcomeModel::Print(head_token(t) + ": command not found"@),
    }
}

/// What the external command line `t` leads to.
pub open spec fn external_model(t: Seq<char>, search_path: Option<Seq<char>>, found: Seq<bool>) -> OutcomeModel {
    external_choice(t, resolution(search_path, head_token(t), found))
}

/// What the input line `line` leads to, in the fixed order of the builtins, given
/// the search path and the outcome of the file probes.
pub open spec fn outcome_model(line: Seq<char>, search_path: Option<Seq<char>>, found: Seq<bool>) -> OutcomeModel {
    let t = trim(line);
    if head_token(t) == "exit"@ {
        OutcomeModel::Exit(exit_model(t))
    } else if has_prefix(t, "echo "@) {
        OutcomeModel::Print(t.skip("echo "@.len() as int))
    } else if has_prefix(t, "type "@) {
        OutcomeModel::Print(type_model(trim(t.skip("type "@.len() as int)), search_path, found))
    } else if has_prefix(t, "pwd"@) {
        OutcomeModel::WorkingDirectory
    } else if has_prefix(t, "cd "@) {
        OutcomeModel::ChangeDirectory(t.skip("cd "@.len() as int))
    } else {
        external_model(t, search_path, found)
    }
}

/// The request of the trimmed `exit` line `t`.
fn exit_request(t: &str) -> (r: ExitRequest)
    requires
        head_token(t@) == "exit"@,
    ensures
        r@ == exit_model(t@),
{
    let w = first_white_index(t);
    let code = trim_str(t.substring_char(w, t.unicode_len()));
    if code.unicode_len() == 0 {
        ExitRequest::Default
    } else {
        match parse_i32(code) {
            Some(n) => ExitRequest::Code(n),
            None => ExitRequest::Malformed(String::from_str(code)),
        }
    }
}

/// What `type` reports of `name`, given what resolving it gave: a builtin
/// whatever was resolved, else the resolved path, else that nothing was found.
pub fn report_type(name: &str, resolved: Option<String>) -> (r: String)
    ensures
        r@ == type_report(name@, resolved.deep_view()),
{
    match Builtin::from_name(name) {
        Some(b) => {
            let mut r = concat_str(name, " is a shell ");
            r.append(b.category());
            r
        },
        None => match resolved {
            Some(p) => {
                let mut r = concat_str(name, " is ");
                r.append(p.as_str());
                r
            },
            None => concat_str(name, ": not found"),
        },
    }
}

/// What `type` reports of `command` (trimmed first): a builtin, the path that
/// resolution along `search_path` found, or that nothing was found. Builtins are
/// reported without searching.
pub fn eval_type(command: &str, search_path: Option<&str>) -> (r: String)
    ensures
        exists|found: Seq<bool>| r@ == type_model(trim(command@), search_path.deep_view(), found),
{
    let name = trim_str(command);
    if Builtin::from_name(name).is_some() {
        let r = report_type(name, None);
        assert(r@ == type_model(name@, search_path.deep_view(), Seq::empty()));
        r
    } else {
        let resolved = resolve(search_path, name);
        let ghost found = choose|found: Seq<bool>|
            resolved.deep_view() == resolution(search_path.deep_view(), name@, found);
        let r = report_type(name, resolved);
        assert(r@ == type_model(name@, search_path.deep_view(), found));
        r
    }
}

/// What the external command line `t` leads to, given what resolving its first
/// token gave: run that path with the single argument, or report the first token
/// as not found.
pub fn external_outcome(t: &str, resolved: Option<String>) -> (r: Outcome)
    ensures
        r@ == external_choice(t@, resolved.deep_view()),
{
    let n = t.unicode_len();
    let w = first_white_index(t);
    let head = t.substring_char(0, w);
    let argument = if w == n {
        None
    } else {
        Some(String::from_str(t.substring_char(w + 1, n)))
    };
    assert(argument.deep_view() == single_argument(t@)) by {
        if w < n {
            assert(t@.subrange(w + 1, n as int) =~= after_head(t@).drop_first());
        }
    }
    match resolved {
        Some(p) => Outcome::Run { path: p, argument },
        None => Outcome::Print(concat_str(head, ": command not found")),
    }
}

/// What the external command line `t` leads to: the executable to run with its
/// single argument, or that no command of that name was found.
pub fn eval_command(t: &str, search_path: Option<&str>) -> (r: Outcome)
    ensures
        exists|found: Seq<bool>| r@ == external_model(t@, search_path.deep_view(), found),
{
    let w = first_white_index(t);
    let head = t.substring_char(0, w);
    let resolved = resolve(search_path, head);
    let ghost found = choose|found: Seq<bool>|
        resolved.deep_view() == resolution(search_path.deep_view(), head@, found);
    let r = external_outcome(t, resolved);
    assert(r@ == external_model(t@, search_path.deep_view(), found));
    r
}

/// Classifies the input line `input` and decides what it leads to, resolving
/// external commands and `type` queries along `search_path`.
pub fn eval(input: &str, search_path: Option<&str>) -> (r: Outcome)
    ensures
        exists|found: Seq<bool>| r@ == outcome_model(input@, search_path.deep_view(), found),
{
    let t = trim_str(input);
    let n = t.unicode_len();
    let w = first_white_index(t);
    if same_text(t.substring_char(0, w), "exit") {
        let r = Outcome::Exit(exit_request(t));
        assert(r@ == outcome_model(input@, search_path.deep_view(), Seq::empty()));
        return r;
    }
    if starts_with(t, "echo ") {
        let r = Outcome::Print(String::from_str(t.substring_char("echo ".unicode_len(), n)));
        assert(r@ == outcome_model(input@, search_path.deep_view(), Seq::empty()));
        return r;
    }
    if starts_with(t, "type ") {
        let s = eval_type(t.substring_char("type ".unicode_len(), n), search_path);
        let ghost found = choose|found: Seq<bool>|
            s@ == type_model(trim(t@.skip("type "@.len() as int)), search_path.deep_view(), found);
        let r = Outcome::Print(s);
        assert(r@ == outcome_model(input@, search_path.deep_view(), found));
        return r;
    }
    if starts_with(t, "pwd") {
        let r = Outcome::WorkingDirectory;
        assert(r@ == outcome_model(input@, search_path.deep_view(), Seq::empty()));
        return r;
    }
    if starts_with(t, "cd ") {
        let r = Outcome::ChangeDirectory(String::from_str(t.substring_char("cd ".unicode_len(), n)));
        assert(r@ == outcome_model(input@, search_path.deep_view(), Seq::empty()));
        return r;
    }
    let r = eval_command(t, search_path);
    let ghost found = choose|found: Seq<bool>| r@ == external_model(t@, search_path.deep_view(), found);
    assert(r@ == outcome_model(input@, search_path.deep_view(), found));
    r
}

/// A text without white space at either end is its own trimmed form.
pub proof fn lemma_trim_unchanged(s: Seq<char>)
    requires
        s.len() > 0,
        !is_white(s[0]),
        !is_white(s.last()),
    ensures
        trim(s) == s,
{
    assert(trim_end(s) == s);
}

/// The line `type name`, for a name without white space at its ends, is a `type`
/// query about exactly that name.
proof fn lemma_type_line(name: Seq<char>)
    requires
        name.len() > 0,
        !is_white(name[0]),
        !is_white(name.last()),
    ensures
        trim("type "@ + name) == "type "@ + name,
        head_token("type "@ + name) != "exit"@,
        !has_prefix("type "@ + name, "echo "@),
        has_prefix("type "@ + name, "type "@),
        ("type "@ + name).skip("type "@.len() as int) == name,
        trim(name) == name,
{
    reveal_strlit("type ");
    reveal_strlit("exit");
    reveal_strlit("echo ");
    let t = "type "@ + name;
    assert(t[0] == 't');
    assert(t.last() == name.last());
    lemma_trim_unchanged(t);
    lemma_trim_unchanged(name);
    let t1 = t.drop_first();
    let t2 = t1.drop_first();
    let t3 = t2.drop_first();
    let t4 = t3.drop_first();
    assert(t4[0] == ' ');
    assert(first_white(t4) == 0);
    assert(t3[0] == 'e');
    assert(first_white(t3) == 1);
    assert(t2[0] == 'p');
    assert(first_white(t2) == 2);
    assert(t1[0] == 'y');
    assert(first_white(t1) == 3);
    assert(first_white(t) == 4);
    assert(head_token(t)[0] == 't');
    assert("exit"@[0] == 'e');
    assert(t.subrange(0, 5)[0] != "echo "@[0]);
    assert(t.subrange(0, 5) =~= "type "@);
    assert(t.skip(5) =~= name);
}

/// `type` names every builtin as a shell builtin, whatever the search path holds
/// and whatever the file probes find.
pub proof fn lemma_type_reports_builtin(b: Builtin, search_path: Option<Seq<char>>, found: Seq<bool>)
    ensures
        outcome_model("type "@ + b.spec_name(), search_path, found) == OutcomeModel::Print(
            b.spec_name() + " is a shell "@ + "builtin"@,
        ),
{
    reveal_strlit("echo");
    reveal_strlit("type");
    reveal_strlit("exit");
    reveal_strlit("cd");
    reveal_strlit("pwd");
    crate::builtin::lemma_registry_finds_each_builtin(b);
    let name = b.spec_name();
    assert(name.len() > 0 && !is_white(name[0]) && !is_white(name.last()));
    lemma_type_line(name);
}

/// `type` reports a name that is no builtin and that no probe along the search
/// path found as not found.
pub proof fn lemma_type_reports_missing(name: Seq<char>, search_path: Option<Seq<char>>, found: Seq<bool>)
    requires
        name.len() > 0,
        !is_white(name[0]),
        !is_white(name.last()),
        builtin_named(name) is None,
        forall|i: int| 0 <= i < found.len() ==> !found[i],
    ensures
        outcome_model("type "@ + name, search_path, found) == OutcomeModel::Print(
            name + ": not found"@,
        ),
{
    lemma_type_line(name);
    if let Some(v) = search_path {
        let cands = crate::resolver::search_candidates(v, name);
        if found.len() <= cands.len() {
            crate::resolver::lemma_first_found_after_misses(cands, found);
        } else {
            crate::resolver::lemma_first_found_after_misses(cands, found.take(cands.len() as int));
            crate::resolver::lemma_first_found_ignores_tail(cands, found);
        }
    }
}

/// `echo` prints the rest of its line exactly as written, inner spacing included.
pub proof fn lemma_echo_passes_text_through(text: Seq<char>, search_path: Option<Seq<char>>, found: Seq<bool>)
    requires
        text.len() > 0,
        !is_white(text[0]),
        !is_white(text.last()),
    ensures
        outcome_model("echo "@ + text, search_path, found) == OutcomeModel::Print(text),
{
    reveal_strlit("echo ");
    reveal_strlit("exit");
    let t = "echo "@ + text;
    assert(t.last() == text.last());
    lemma_trim_unchanged(t);
    let t1 = t.drop_first();
    let t2 = t1.drop_first();
    let t3 = t2.drop_first();
    let t4 = t3.drop_first();
    assert(t4[0] == ' ');
    assert(first_white(t4) == 0);
    assert(t3[0] == 'o');
    assert(first_white(t3) == 1);
    assert(t2[0] == 'h');
    assert(first_white(t2) == 2);
    assert(t1[0] == 'c');
    assert(first_white(t1) == 3);
    assert(t[0] == 'e');
    assert(first_white(t) == 4);
    assert(head_token(t)[1] != "exit"@[1]);
    assert(t.subrange(0, 5) =~= "echo "@);
    assert(t.skip(5) =~= text);
}

/// `pwd` only asks for the working directory: it never changes it and does not
/// depend on the search path or on any file probe.
pub proof fn lemma_pwd_only_queries(search_path: Option<Seq<char>>, found: Seq<bool>)
    ensures
        outcome_model("pwd"@, search_path, found) == OutcomeModel::WorkingDirectory,
{
    reveal_strlit("pwd");
    reveal_strlit("exit");
    reveal_strlit("echo ");
    reveal_strlit("type ");
    let t = "pwd"@;
    lemma_trim_unchanged(t);
    let t1 = t.drop_first();
    let t2 = t1.drop_first();
    let t3 = t2.drop_first();
    assert(t3.len() == 0);
    assert(first_white(t3) == 0);
    assert(t2[0] == 'd');
    assert(first_white(t2) == 1);
    assert(t1[0] == 'w');
    assert(first_white(t1) == 2);
    assert(t[0] == 'p');
    assert(first_white(t) == 3);
    assert(head_token(t).len() != "exit"@.len());
    assert(t.subrange(0, 3) =~= "pwd"@);
}

} // verus!
