//! The table of options the backend accepts, and the check of the passed-on
//! arguments against it before the backend is started.
use vstd::prelude::*;
use crate::cli::strings_view;
use crate::text::{
    chars_of, contains_char, has_char, has_prefix, is_flag, same_text, starts_with_text,
    string_of_range,
};

verus! {

/// Whether an option stands alone or needs a value.
#[derive(Clone, Copy, Debug, PartialEq, Eq, Structural)]
pub enum Arity {
    Flag,
    Value,
}

/// The options of the backend, each with its arity, long forms first.
pub open spec fn backend_options() -> Seq<(Seq<char>, Arity)> {
    seq![
        ("--help"@, Arity::Flag),
        ("--version"@, Arity::Flag),
        ("--verbosity"@, Arity::Value),
        ("--no_log"@, Arity::Flag),
        ("--log_performance"@, Arity::Flag),
        ("--log_protocol_messages"@, Arity::Flag),
        ("--no_frontend"@, Arity::Flag),
        ("--no_database"@, Arity::Flag),
        ("--http_url_prefix"@, Arity::Value),
        ("--no_browser"@, Arity::Flag),
        ("--browser"@, Arity::Value),
        ("--host"@, Arity::Value),
        ("--port"@, Arity::Value),
        ("--omp_threads"@, Arity::Value),
        ("--top_level_folder"@, Arity::Value),
        ("--frontend_folder"@, Arity::Value),
        ("--exit_timeout"@, Arity::Value),
        ("--initial_timeout"@, Arity::Value),
        ("--idle_timeout"@, Arity::Value),
        ("--read_only_mode"@, Arity::Flag),
        ("--enable_scripting"@, Arity::Flag),
        ("--no_user_config"@, Arity::Flag),
        ("--no_system_config"@, Arity::Flag),
        ("--no_runtime_config"@, Arity::Flag),
        ("--controller_deployment"@, Arity::Flag),
        ("--debug_no_auth"@, Arity::Flag),
        ("-h"@, Arity::Flag),
        ("-v"@, Arity::Flag),
        ("-p"@, Arity::Value),
        ("-t"@, Arity::Value),
    ]
}

pub open spec fn table_view(t: Seq<(&str, Arity)>) -> Seq<(Seq<char>, Arity)> {
    t.map_values(|e: (&str, Arity)| (e.0@, e.1))
}

/// The option table as values.
pub fn option_table() -> (r: Vec<(&'static str, Arity)>)
    ensures
        table_view(r@) == backend_options(),
{
    let mut r: Vec<(&'static str, Arity)> = Vec::new();
    r.push(("--help", Arity::Flag));
    r.push(("--version", Arity::Flag));
    r.push(("--verbosity", Arity::Value));
    r.push(("--no_log", Arity::Flag));
    r.push(("--log_performance", Arity::Flag));
    r.push(("--log_protocol_messages", Arity::Flag));
    r.push(("--no_frontend", Arity::Flag));
    r.push(("--no_database", Arity::Flag));
    r.push(("--http_url_prefix", Arity::Value));
    r.push(("--no_browser", Arity::Flag));
    r.push(("--browser", Arity::Value));
    r.push(("--host", Arity::Value));
    r.push(("--port", Arity::Value));
    r.push(("--omp_threads", Arity::Value));
    r.push(("--top_level_folder", Arity::Value));
    r.push(("--frontend_folder", Arity::Value));
    r.push(("--exit_timeout", Arity::Value));
    r.push(("--initial_timeout", Arity::Value));
    r.push(("--idle_timeout", Arity::Value));
    r.push(("--read_only_mode", Arity::Flag));
    r.push(("--enable_scripting", Arity::Flag));
    r.push(("--no_user_config", Arity::Flag));
    r.push(("--no_system_config", Arity::Flag));
    r.push(("--no_runtime_config", Arity::Flag));
    r.push(("--controller_deployment", Arity::Flag));
    r.push(("--debug_no_auth", Arity::Flag));
    r.push(("-h", Arity::Flag));
    r.push(("-v", Arity::Flag));
    r.push(("-p", Arity::Value));
    r.push(("-t", Arity::Value));
    assert(table_view(r@) =~= backend_options());
    r
}

/// The arity of the first entry of `t` named `name`.
pub open spec fn lookup(t: Seq<(Seq<char>, Arity)>, name: Seq<char>) -> Option<Arity>
    decreases t.len(),
{
    if t.len() == 0 {
        None
    } else if t[0].0 == name {
        Some(t[0].1)
    } else {
        lookup(t.drop_first(), name)
    }
}

/// The names in `t` that start with `p`, in table order.
pub open spec fn completions(t: Seq<(Seq<char>, Arity)>, p: Seq<char>) -> Seq<Seq<char>>
    decreases t.len(),
{
    if t.len() == 0 {
        Seq::empty()
    } else if has_prefix(t.last().0, p) {
        completions(t.drop_last(), p).push(t.last().0)
    } else {
        completions(t.drop_last(), p)
    }
}

/// The one known long option that `name` is a prefix of, if there is exactly one.
pub open spec fn suggestion_for(name: Seq<char>) -> Option<Seq<char>> {
    if has_prefix(name, "--"@) && completions(backend_options(), name).len() == 1 {
        Some(completions(backend_options(), name)[0])
    } else {
        None
    }
}

/// The position of the first `=` in `a`, or its length if there is none.
pub open spec fn eq_index(a: Seq<char>) -> nat
    decreases a.len(),
{
    if a.len() == 0 || a[0] == '=' {
        0
    } else {
        1 + eq_index(a.drop_first())
    }
}

/// The option name of a token: what comes before an inline `=`.
pub open spec fn option_name(a: Seq<char>) -> Seq<char> {
    a.take(eq_index(a) as int)
}

/// Why an argument list was refused, with strings as their characters.
pub enum OptionFault {
    Unknown { name: Seq<char>, suggestion: Option<Seq<char>> },
    MissingValue { name: Seq<char> },
    UnexpectedValue { name: Seq<char> },
}

/// The first fault of `args`, read left to right up to a `--` separator.
pub open spec fn check_options(args: Seq<Seq<char>>) -> Option<OptionFault>
    decreases args.len(),
{
    if args.len() == 0 {
        None
    } else {
        let a = args[0];
        let rest = args.drop_first();
        if a == "--"@ {
            None
        } else if !is_flag(a) {
            check_options(rest)
        } else {
            let name = option_name(a);
            match lookup(backend_options(), name) {
                None => Some(OptionFault::Unknown { name, suggestion: suggestion_for(name) }),
                Some(Arity::Flag) => {
                    if has_char(a, '=') {
                        Some(OptionFault::UnexpectedValue { name })
                    } else {
                        check_options(rest)
                    }
                },
                Some(Arity::Value) => {
                    if has_char(a, '=') {
                        check_options(rest)
                    } else if rest.len() > 0 && !is_flag(rest[0]) {
                        check_options(rest.drop_first())
                    } else {
                        Some(OptionFault::MissingValue { name })
                    }
                },
            }
        }
    }
}

/// Why an argument list was refused.
#[derive(Clone, Debug)]
pub enum OptionError {
    Unknown { name: String, suggestion: Option<String> },
    MissingValue { name: String },
    UnexpectedValue { name: String },
}

impl View for OptionError {
    type V = OptionFault;

    open spec fn view(&self) -> OptionFault {
        match self {
            OptionError::Unknown { name, suggestion } => OptionFault::Unknown {
                name: name@,
                suggestion: match suggestion {
                    Some(s) => Some(s@),
                    None => None,
                },
            },
            OptionError::MissingValue { name } => OptionFault::MissingValue { name: name@ },
            OptionError::UnexpectedValue { name } => OptionFault::UnexpectedValue { name: name@ },
        }
    }
}

/// The message shown for a fault.
pub open spec fn fault_text(f: OptionFault) -> Seq<char> {
    match f {
        OptionFault::Unknown { name, suggestion } => match suggestion {
            Some(s) => "unknown option "@ + name + "; did you mean "@ + s + "?"@,
            None => "unknown option "@ + name + "; see --help for the supported options"@,
        },
        OptionFault::MissingValue { name } => "option "@ + name + " requires a value"@,
        OptionFault::UnexpectedValue { name } => "option "@ + name + " does not take a value"@,
    }
}

impl OptionError {
    /// A message for the user that names the option.
    pub fn message(&self) -> (r: String)
        ensures
            r@ == fault_text(self@),
    {
        match self {
            OptionError::Unknown { name, suggestion } => {
                let mut r = String::from_str("unknown option ");
                r.append(name.as_str());
                match suggestion {
                    Some(s) => {
                        r.append("; did you mean ");
                        r.append(s.as_str());
                        r.append("?");
                    },
                    None => {
                        r.append("; see --help for the supported options");
                    },
                }
                r
            },
            OptionError::MissingValue { name } => {
                let mut r = String::from_str("option ");
                r.append(name.as_str());
                r.append(" requires a value");
                r
            },
            OptionError::UnexpectedValue { name } => {
                let mut r = String::from_str("option ");
                r.append(name.as_str());
                r.append(" does not take a value");
                r
            },
        }
    }
}

/// An unknown long option that abbreviates exactly one known long option is
/// refused with that option as a suggestion.
pub proof fn lemma_unknown_abbreviation_suggests(a: Seq<char>, rest: Seq<Seq<char>>)
    requires
        a != "--"@,
        has_prefix(a, "--"@),
        !has_char(a, '='),
        lookup(backend_options(), a) is None,
        completions(backend_options(), a).len() == 1,
    ensures
        check_options(seq![a] + rest) == Some(
            OptionFault::Unknown {
                name: a,
                suggestion: Some(completions(backend_options(), a)[0]),
            },
        ),
        fault_text(check_options(seq![a] + rest)->0) == "unknown option "@ + a
            + "; did you mean "@ + completions(backend_options(), a)[0] + "?"@,
{
    lemma_no_eq_index(a);
    let args = seq![a] + rest;
    assert(args[0] == a);
    reveal_strlit("--");
    assert(a.subrange(0, 2)[0] == a[0]);
    assert(is_flag(a));
}

/// An option that needs a value, with no inline `=` and followed by nothing
/// or by another option, is refused as missing its value.
pub proof fn lemma_missing_value(a: Seq<char>, rest: Seq<Seq<char>>)
    requires
        a != "--"@,
        is_flag(a),
        !has_char(a, '='),
        lookup(backend_options(), a) == Some(Arity::Value),
        rest.len() == 0 || is_flag(rest[0]),
    ensures
        check_options(seq![a] + rest) == Some(OptionFault::MissingValue { name: a }),
        fault_text(check_options(seq![a] + rest)->0) == "option "@ + a + " requires a value"@,
{
    lemma_no_eq_index(a);
    let args = seq![a] + rest;
    assert(args[0] == a);
    assert(args.drop_first() =~= rest);
}

/// An option that stands alone, given an inline `=value`, is refused.
pub proof fn lemma_unexpected_value(a: Seq<char>, rest: Seq<Seq<char>>)
    requires
        a != "--"@,
        is_flag(a),
        has_char(a, '='),
        lookup(backend_options(), option_name(a)) == Some(Arity::Flag),
    ensures
        check_options(seq![a] + rest) == Some(
            OptionFault::UnexpectedValue { name: option_name(a) },
        ),
        fault_text(check_options(seq![a] + rest)->0) == "option "@ + option_name(a)
            + " does not take a value"@,
{
    let args = seq![a] + rest;
    assert(args[0] == a);
}

proof fn lemma_eq_index(a: Seq<char>, i: int)
    requires
        0 <= i <= a.len(),
        forall|k: int| 0 <= k < i ==> a[k] != '=',
        i == a.len() || a[i] == '=',
    ensures
        eq_index(a) == i,
    decreases i,
{
    if i > 0 {
        assert(a[0] != '=');
        assert forall|k: int| 0 <= k < i - 1 implies a.drop_first()[k] != '=' by {
            assert(a.drop_first()[k] == a[k + 1]);
        }
        if i < a.len() {
            assert(a.drop_first()[i - 1] == a[i]);
        }
        lemma_eq_index(a.drop_first(), i - 1);
    }
}

proof fn lemma_no_eq_index(a: Seq<char>)
    requires
        !has_char(a, '='),
    ensures
        eq_index(a) == a.len(),
        option_name(a) == a,
{
    lemma_eq_index(a, a.len() as int);
    assert(a.take(a.len() as int) =~= a);
}

/// The option name of `s`, the part before an inline `=`.
fn name_of(s: &str) -> (r: String)
    ensures
        r@ == option_name(s@),
{
    let v = chars_of(s);
    let mut k: usize = 0;
    while k < v.len() && v[k] != '='
        invariant
            k <= v@.len(),
            v@ == s@,
            forall|j: int| 0 <= j < k ==> v@[j] != '=',
        decreases v@.len() - k,
    {
        k = k + 1;
    }
    proof {
        lemma_eq_index(s@, k as int);
    }
    string_of_range(&v, 0, k)
}

/// The arity of the option `name`, if the backend knows it.
pub fn option_arity(table: &Vec<(&'static str, Arity)>, name: &str) -> (r: Option<Arity>)
    requires
        table_view(table@) == backend_options(),
    ensures
        r == lookup(backend_options(), name@),
{
    let mut i: usize = 0;
    assert(table_view(table@).skip(0) =~= table_view(table@));
    while i < table.len()
        invariant
            i <= table@.len(),
            table_view(table@) == backend_options(),
            lookup(backend_options(), name@) == lookup(table_view(table@).skip(i as int), name@),
        decreases table@.len() - i,
    {
        let ghost t = table_view(table@).skip(i as int);
        assert(t[0] == (table@[i as int].0@, table@[i as int].1));
        assert(t.drop_first() =~= table_view(table@).skip(i as int + 1));
        if same_text(table[i].0, name) {
            return Some(table[i].1);
        }
        i = i + 1;
    }
    None
}

/// The known long option that `name` abbreviates, if it abbreviates exactly one.
pub fn suggest_option(table: &Vec<(&'static str, Arity)>, name: &str) -> (r: Option<String>)
    requires
        table_view(table@) == backend_options(),
    ensures
        match r {
            Some(s) => suggestion_for(name@) == Some(s@),
            None => suggestion_for(name@) is None,
        },
{
    if !starts_with_text(name, "--") {
        return None;
    }
    let mut count: usize = 0;
    let mut found: &str = "";
    let mut i: usize = 0;
    while i < table.len()
        invariant
            i <= table@.len(),
            table_view(table@) == backend_options(),
            count == completions(table_view(table@).take(i as int), name@).len(),
            count > 0 ==> completions(table_view(table@).take(i as int), name@)[0] == found@,
            count <= i,
        decreases table@.len() - i,
    {
        let ghost t = table_view(table@).take(i as int + 1);
        assert(t.drop_last() =~= table_view(table@).take(i as int));
        assert(t.last() == (table@[i as int].0@, table@[i as int].1));
        if starts_with_text(table[i].0, name) {
            if count == 0 {
                found = table[i].0;
            }
            count = count + 1;
        }
        i = i + 1;
    }
    assert(table_view(table@).take(i as int) =~= backend_options());
    if count == 1 {
        Some(String::from_str(found))
    } else {
        None
    }
}

/// Checks the arguments handed on to the backend against its option table,
/// up to a `--` separator; positional tokens are not checked.
pub fn validate_backend_args(args: &Vec<String>) -> (r: Result<(), OptionError>)
    ensures
        match r {
            Ok(()) => check_options(strings_view(args@)) is None,
            Err(e) => check_options(strings_view(args@)) == Some(e@),
        },
{
    let ghost all = strings_view(args@);
    let table = option_table();
    let mut i: usize = 0;
    assert(all.skip(0) =~= all);
    while i < args.len()
        invariant
            i <= args@.len(),
            all == strings_view(args@),
            table_view(table@) == backend_options(),
            check_options(all.skip(i as int)) == check_options(all),
        decreases args@.len() - i,
    {
        let ghost rest = all.skip(i as int + 1);
        let s = args[i].as_str();
        assert(all.skip(i as int)[0] == s@);
        assert(all.skip(i as int).drop_first() =~= rest);
        if same_text(s, "--") {
            return Ok(());
        }
        if !(s.unicode_len() > 0 && s.get_char(0) == '-') {
            i = i + 1;
        } else {
            let name = name_of(s);
            let inline = contains_char(&chars_of(s), '=');
            match option_arity(&table, name.as_str()) {
                None => {
                    let suggestion = suggest_option(&table, name.as_str());
                    let e = OptionError::Unknown { name, suggestion };
                    return Err(e);
                },
                Some(Arity::Flag) => {
                    if inline {
                        return Err(OptionError::UnexpectedValue { name });
                    }
                    i = i + 1;
                },
                Some(Arity::Value) => {
                    if inline {
                        i = i + 1;
                    } else if i + 1 < args.len() && !(args[i + 1].as_str().unicode_len() > 0
                        && args[i + 1].as_str().get_char(0) == '-') {
                        assert(rest[0] == args@[i + 1]@);
                        assert(rest.drop_first() =~= all.skip(i as int + 2));
                        i = i + 2;
                    } else {
                        proof {
                            if i + 1 < args.len() {
                                assert(rest[0] == args@[i + 1]@);
                            }
                        }
                        return Err(OptionError::MissingValue { name });
                    }
                },
            }
        }
    }
    assert(all.skip(i as int).len() == 0);
    Ok(())
}

} // verus!
