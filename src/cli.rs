//! Splits the launcher's command line into its own flags, an optional input
//! path, a port override and the arguments handed on to the backend.
use vstd::prelude::*;
use crate::paths::opt_view;
use crate::text::{chars_of, contains_char, has_char, has_prefix, is_flag, same_text, starts_with_text, string_of_range};

verus! {

pub open spec fn is_digit(c: char) -> bool {
    '0' <= c && c <= '9'
}

pub open spec fn all_digits(s: Seq<char>) -> bool {
    forall|i: int| 0 <= i < s.len() ==> is_digit(#[trigger] s[i])
}

/// The number written by the decimal digits `s`.
pub open spec fn digits_value(s: Seq<char>) -> nat
    decreases s.len(),
{
    if s.len() == 0 {
        0
    } else {
        digits_value(s.drop_last()) * 10 + ((s.last() as u32) - ('0' as u32)) as nat
    }
}

/// A port number written in decimal, from 0 to 65535.
pub open spec fn port_number(s: Seq<char>) -> Option<u16> {
    if s.len() > 0 && all_digits(s) && digits_value(s) <= 65535 {
        Some(digits_value(s) as u16)
    } else {
        None
    }
}

proof fn lemma_value_grows(s: Seq<char>, k: int)
    requires
        0 <= k <= s.len(),
        all_digits(s),
    ensures
        digits_value(s.take(k)) <= digits_value(s),
    decreases s.len(),
{
    if k < s.len() {
        assert(all_digits(s.drop_last())) by {
            assert forall|i: int| 0 <= i < s.drop_last().len() implies is_digit(
                #[trigger] s.drop_last()[i],
            ) by {
                assert(s.drop_last()[i] == s[i]);
            }
        }
        lemma_value_grows(s.drop_last(), k);
        assert(s.drop_last().take(k) =~= s.take(k));
    } else {
        assert(s.take(k) =~= s);
    }
}

/// Reads the port number written in `v[from..]`.
pub fn parse_port(v: &Vec<char>, from: usize) -> (r: Option<u16>)
    requires
        from <= v@.len(),
    ensures
        r == port_number(v@.skip(from as int)),
{
    let ghost s = v@.skip(from as int);
    if from == v.len() {
        return None;
    }
    let mut acc: u64 = 0;
    let mut i: usize = from;
    while i < v.len()
        invariant
            from <= i <= v@.len(),
            s == v@.skip(from as int),
            all_digits(s.take(i - from)),
            acc == digits_value(s.take(i - from)),
            acc <= 65535,
        decreases v@.len() - i,
    {
        let c = v[i];
        if !('0' <= c && c <= '9') {
            assert(s[i - from] == c);
            assert(!all_digits(s));
            return None;
        }
        assert(s.take(i - from + 1).drop_last() =~= s.take(i - from));
        assert(s.take(i - from + 1).last() == c);
        acc = acc * 10 + ((c as u32) - ('0' as u32)) as u64;
        i = i + 1;
        assert(all_digits(s.take(i - from))) by {
            assert forall|k: int| 0 <= k < s.take(i - from).len() implies is_digit(
                #[trigger] s.take(i - from)[k],
            ) by {
                if k < i - from - 1 {
                    assert(s.take(i - from)[k] == s.take(i - from - 1)[k]);
                }
            }
        }
        if acc > 65535 {
            proof {
                if all_digits(s) {
                    lemma_value_grows(s, i - from);
                }
            }
            return None;
        }
    }
    assert(s.take(i - from) =~= s);
    Some(acc as u16)
}

/// What the command line asks of the launcher.
pub struct CliArgs {
    pub input_path: Option<String>,
    pub extra_args: Vec<String>,
    pub inspect: bool,
    pub help: bool,
    pub version: bool,
    pub explicit_port: Option<u16>,
    pub port_error: Option<String>,
}

/// The value of a [`CliArgs`], with every string as its characters.
pub struct CliModel {
    pub input_path: Option<Seq<char>>,
    pub extra_args: Seq<Seq<char>>,
    pub inspect: bool,
    pub help: bool,
    pub version: bool,
    pub explicit_port: Option<u16>,
    pub port_error: Option<Seq<char>>,
}

pub open spec fn strings_view(v: Seq<String>) -> Seq<Seq<char>> {
    v.map_values(|s: String| s@)
}

impl View for CliArgs {
    type V = CliModel;

    open spec fn view(&self) -> CliModel {
        CliModel {
            input_path: opt_view(self.input_path),
            extra_args: strings_view(self.extra_args@),
            inspect: self.inspect,
            help: self.help,
            version: self.version,
            explicit_port: self.explicit_port,
            port_error: opt_view(self.port_error),
        }
    }
}

pub open spec fn empty_invocation() -> CliModel {
    CliModel {
        input_path: None,
        extra_args: Seq::empty(),
        inspect: false,
        help: false,
        version: false,
        explicit_port: None,
        port_error: None,
    }
}

pub open spec fn invalid_port_text(v: Seq<char>) -> Seq<char> {
    "invalid port value '"@ + v + "'"@
}

pub open spec fn missing_port_text() -> Seq<char> {
    "missing value for --port"@
}

/// Records a port value; once a port error stands, later values are ignored.
pub open spec fn with_port_value(st: CliModel, v: Seq<char>) -> CliModel {
    if st.port_error is Some {
        st
    } else {
        match port_number(v) {
            Some(p) => CliModel { explicit_port: Some(p), ..st },
            None => CliModel { explicit_port: None, port_error: Some(invalid_port_text(v)), ..st },
        }
    }
}

pub open spec fn with_missing_port(st: CliModel) -> CliModel {
    if st.port_error is Some {
        st
    } else {
        CliModel { explicit_port: None, port_error: Some(missing_port_text()), ..st }
    }
}

/// A positional token: the input path if none is set yet, else passed on.
pub open spec fn with_positional(st: CliModel, a: Seq<char>) -> CliModel {
    if st.input_path is None {
        CliModel { input_path: Some(a), ..st }
    } else {
        CliModel { extra_args: st.extra_args.push(a), ..st }
    }
}

/// The tokens after `--`, taken verbatim: the first is the input path if
/// none is set yet, the rest are passed on.
pub open spec fn after_separator(rest: Seq<Seq<char>>, st: CliModel) -> CliModel {
    if rest.len() == 0 {
        st
    } else if st.input_path is None {
        CliModel { input_path: Some(rest[0]), extra_args: st.extra_args + rest.drop_first(), ..st }
    } else {
        CliModel { extra_args: st.extra_args + rest, ..st }
    }
}

/// Tokens that some desktop shells add when they start a program.
pub open spec fn is_spurious(a: Seq<char>) -> bool {
    has_prefix(a, "-psn_"@)
}

/// The result of reading the tokens `args` from the state `st`.
pub open spec fn parse_tokens(args: Seq<Seq<char>>, st: CliModel) -> CliModel
    decreases args.len(),
{
    if args.len() == 0 {
        st
    } else {
        let a = args[0];
        let rest = args.drop_first();
        if a == "--"@ {
            after_separator(rest, st)
        } else if a == "--inspect"@ {
            parse_tokens(rest, CliModel { inspect: true, ..st })
        } else if a == "--help"@ || a == "-h"@ {
            parse_tokens(rest, CliModel { help: true, ..st })
        } else if a == "--version"@ || a == "-v"@ {
            parse_tokens(rest, CliModel { version: true, ..st })
        } else if a == "--port"@ || a == "-p"@ {
            if rest.len() == 0 {
                with_missing_port(st)
            } else if rest[0] == "--"@ {
                parse_tokens(rest, with_missing_port(st))
            } else {
                parse_tokens(rest.drop_first(), with_port_value(st, rest[0]))
            }
        } else if has_prefix(a, "--port="@) {
            parse_tokens(rest, with_port_value(st, a.skip("--port="@.len() as int)))
        } else if is_spurious(a) {
            parse_tokens(rest, st)
        } else if is_flag(a) {
            if !has_char(a, '=') && rest.len() > 0 && !is_flag(rest[0]) {
                parse_tokens(
                    rest.drop_first(),
                    CliModel { extra_args: st.extra_args.push(a).push(rest[0]), ..st },
                )
            } else {
                parse_tokens(rest, CliModel { extra_args: st.extra_args.push(a), ..st })
            }
        } else {
            parse_tokens(rest, with_positional(st, a))
        }
    }
}

pub open spec fn parse_invocation(args: Seq<Seq<char>>) -> CliModel {
    parse_tokens(args, empty_invocation())
}

/// The tokens the launcher reads itself, before the separator.
pub open spec fn is_launcher_token(a: Seq<char>) -> bool {
    a == "--"@ || a == "--inspect"@ || a == "--help"@ || a == "-h"@ || a == "--version"@ || a
        == "-v"@ || a == "--port"@ || a == "-p"@ || has_prefix(a, "--port="@) || is_spurious(a)
}

/// Reading the separator `--` from any state sets no launcher flag and no
/// port: the tokens after it go, in order and unchanged, to the input path
/// (while none is set) and then to the arguments passed on.
pub proof fn lemma_separator_passes_rest_verbatim(st: CliModel, rest: Seq<Seq<char>>)
    ensures
        ({
            let r = parse_tokens(seq!["--"@] + rest, st);
            &&& r.inspect == st.inspect
            &&& r.help == st.help
            &&& r.version == st.version
            &&& r.explicit_port == st.explicit_port
            &&& r.port_error == st.port_error
            &&& (st.input_path is None && rest.len() > 0) ==> (r.input_path == Some(rest[0])
                && r.extra_args == st.extra_args + rest.drop_first())
            &&& (st.input_path is Some || rest.len() == 0) ==> (r.input_path == st.input_path
                && r.extra_args == st.extra_args + rest)
        }),
{
    let args = seq!["--"@] + rest;
    assert(args[0] == "--"@);
    assert(args.drop_first() =~= rest);
}

/// Whatever stands before the first `--` of a token list, and from any state,
/// reading the whole list gives what reading the part before it alone gives,
/// with the tokens after it added verbatim; a port option just before the
/// separator counts as missing its value.
pub proof fn lemma_first_separator(pre: Seq<Seq<char>>, rest: Seq<Seq<char>>, st: CliModel)
    requires
        forall|i: int| 0 <= i < pre.len() ==> pre[i] != "--"@,
    ensures
        parse_tokens(pre + seq!["--"@] + rest, st) == after_separator(rest, parse_tokens(pre, st)),
    decreases pre.len(),
{
    let full = pre + seq!["--"@] + rest;
    reveal_strlit("--");
    if pre.len() == 0 {
        assert(full =~= seq!["--"@] + rest);
        lemma_separator_passes_rest_verbatim(st, rest);
        assert(full.drop_first() =~= rest);
    } else {
        let a = pre[0];
        let tail = pre.drop_first();
        assert(full[0] == a);
        assert(full.drop_first() =~= tail + seq!["--"@] + rest);
        assert forall|i: int| 0 <= i < tail.len() implies tail[i] != "--"@ by {
            assert(tail[i] == pre[i + 1]);
        }
        if a == "--inspect"@ {
            lemma_first_separator(tail, rest, CliModel { inspect: true, ..st });
        } else if a == "--help"@ || a == "-h"@ {
            lemma_first_separator(tail, rest, CliModel { help: true, ..st });
        } else if a == "--version"@ || a == "-v"@ {
            lemma_first_separator(tail, rest, CliModel { version: true, ..st });
        } else if a == "--port"@ || a == "-p"@ {
            if tail.len() == 0 {
                assert((tail + seq!["--"@] + rest)[0] == "--"@);
                assert(tail + seq!["--"@] + rest =~= seq!["--"@] + rest);
                let sm = with_missing_port(st);
                let z = seq!["--"@] + rest;
                assert(z[0] == "--"@);
                assert(z.drop_first() =~= rest);
                assert(full.drop_first() =~= z);
                assert(parse_tokens(z, sm) == after_separator(rest, sm));
                assert(parse_tokens(pre, st) == sm);
                } else {
                assert(tail[0] != "--"@);
                assert((tail + seq!["--"@] + rest)[0] == tail[0]);
                assert((tail + seq!["--"@] + rest).drop_first() =~= tail.drop_first() + seq!["--"@]
                    + rest);
                assert forall|i: int| 0 <= i < tail.drop_first().len() implies tail.drop_first()[i]
                    != "--"@ by {
                    assert(tail.drop_first()[i] == tail[i + 1]);
                }
                lemma_first_separator(tail.drop_first(), rest, with_port_value(st, tail[0]));
                }
        } else if has_prefix(a, "--port="@) {
            lemma_first_separator(
                tail,
                rest,
                with_port_value(st, a.skip("--port="@.len() as int)),
            );
        } else if is_spurious(a) {
            lemma_first_separator(tail, rest, st);
        } else if is_flag(a) {
            if !has_char(a, '=') && tail.len() > 0 && !is_flag(tail[0]) {
                assert((tail + seq!["--"@] + rest)[0] == tail[0]);
                assert((tail + seq!["--"@] + rest).drop_first() =~= tail.drop_first() + seq!["--"@]
                    + rest);
                assert forall|i: int| 0 <= i < tail.drop_first().len() implies tail.drop_first()[i]
                    != "--"@ by {
                    assert(tail.drop_first()[i] == tail[i + 1]);
                }
                lemma_first_separator(
                    tail.drop_first(),
                    rest,
                    CliModel { extra_args: st.extra_args.push(a).push(tail[0]), ..st },
                );
                } else {
                if tail.len() == 0 {
                    assert((tail + seq!["--"@] + rest)[0] == "--"@);
                    assert(is_flag("--"@));
                } else {
                    assert((tail + seq!["--"@] + rest)[0] == tail[0]);
                }
                lemma_first_separator(
                    tail,
                    rest,
                    CliModel { extra_args: st.extra_args.push(a), ..st },
                );
                }
        } else {
            lemma_first_separator(tail, rest, with_positional(st, a));
        }
    }
}

/// In a whole command line, the tokens after the first `--` never set a
/// launcher flag or the port: flags and port are those of the part before
/// it read alone, and the tokens after it go verbatim to the input path
/// (while none is set) and then to the arguments passed on.
pub proof fn lemma_separator_in_command_line(args: Seq<Seq<char>>, k: int)
    requires
        0 <= k < args.len(),
        args[k] == "--"@,
        forall|i: int| 0 <= i < k ==> args[i] != "--"@,
    ensures
        parse_invocation(args) == after_separator(args.skip(k + 1), parse_invocation(args.take(k))),
        parse_invocation(args).inspect == parse_invocation(args.take(k)).inspect,
        parse_invocation(args).help == parse_invocation(args.take(k)).help,
        parse_invocation(args).version == parse_invocation(args.take(k)).version,
        parse_invocation(args).explicit_port == parse_invocation(args.take(k)).explicit_port,
        parse_invocation(args).port_error == parse_invocation(args.take(k)).port_error,
{
    assert(args =~= args.take(k) + seq!["--"@] + args.skip(k + 1));
    lemma_first_separator(args.take(k), args.skip(k + 1), empty_invocation());
}

/// Whole command lines that start with `--` set no launcher flag: the first
/// token after it is the input path and the others are passed on unchanged.
pub proof fn lemma_leading_separator(rest: Seq<Seq<char>>)
    requires
        rest.len() > 0,
    ensures
        parse_invocation(seq!["--"@] + rest) == (CliModel {
            input_path: Some(rest[0]),
            extra_args: rest.drop_first(),
            ..empty_invocation()
        }),
{
    lemma_separator_passes_rest_verbatim(empty_invocation(), rest);
    assert(Seq::<Seq<char>>::empty() + rest.drop_first() =~= rest.drop_first());
}

/// An option the launcher does not know is passed on; when it has no inline
/// `=` and the next token is not an option, that token is passed on with it
/// as its value.
pub proof fn lemma_unknown_option_takes_value(
    st: CliModel,
    f: Seq<char>,
    v: Seq<char>,
    rest: Seq<Seq<char>>,
)
    requires
        is_flag(f),
        !is_launcher_token(f),
        !has_char(f, '='),
        !is_flag(v),
    ensures
        parse_tokens(seq![f, v] + rest, st) == parse_tokens(
            rest,
            CliModel { extra_args: st.extra_args.push(f).push(v), ..st },
        ),
{
    let args = seq![f, v] + rest;
    assert(args[0] == f);
    assert(args.drop_first()[0] == v);
    assert(args.drop_first().drop_first() =~= rest);
}

/// An unknown option with an inline `=`, or followed by another option or by
/// nothing, is passed on alone.
pub proof fn lemma_unknown_option_alone(st: CliModel, f: Seq<char>, rest: Seq<Seq<char>>)
    requires
        is_flag(f),
        !is_launcher_token(f),
        has_char(f, '=') || rest.len() == 0 || is_flag(rest[0]),
    ensures
        parse_tokens(seq![f] + rest, st) == parse_tokens(
            rest,
            CliModel { extra_args: st.extra_args.push(f), ..st },
        ),
{
    let args = seq![f] + rest;
    assert(args[0] == f);
    assert(args.drop_first() =~= rest);
}

/// Whether `pre` reads as whole tokens: it holds no `--`, and no token in it
/// waits for a value that would come after it.
pub open spec fn reads_whole(pre: Seq<Seq<char>>) -> bool
    decreases pre.len(),
{
    if pre.len() == 0 {
        true
    } else {
        let a = pre[0];
        let rest = pre.drop_first();
        if a == "--"@ {
            false
        } else if a == "--port"@ || a == "-p"@ {
            rest.len() > 0 && rest[0] != "--"@ && reads_whole(rest.drop_first())
        } else if !is_launcher_token(a) && is_flag(a) && !has_char(a, '=') && rest.len() > 0
            && !is_flag(rest[0]) {
            reads_whole(rest.drop_first())
        } else {
            reads_whole(rest)
        }
    }
}

/// Whether `b` starts with all of `a`.
pub open spec fn extends(b: Seq<Seq<char>>, a: Seq<Seq<char>>) -> bool {
    a.len() <= b.len() && b.take(a.len() as int) == a
}

proof fn lemma_extends_concat(a: Seq<Seq<char>>, b: Seq<Seq<char>>)
    ensures
        extends(a + b, a),
{
    assert((a + b).take(a.len() as int) =~= a);
}

proof fn lemma_extends_trans(a: Seq<Seq<char>>, b: Seq<Seq<char>>, c: Seq<Seq<char>>)
    requires
        extends(b, a),
        extends(c, b),
    ensures
        extends(c, a),
{
    assert(c.take(a.len() as int) =~= b.take(a.len() as int));
}

/// Reading more tokens only ever adds to the arguments passed on, behind those
/// already there.
pub proof fn lemma_passed_on_only_grows(args: Seq<Seq<char>>, st: CliModel)
    ensures
        extends(parse_tokens(args, st).extra_args, st.extra_args),
    decreases args.len(),
{
    let e = st.extra_args;
    assert(e.take(e.len() as int) =~= e);
    if args.len() > 0 {
        let a = args[0];
        let rest = args.drop_first();
        if a == "--"@ {
            lemma_extends_concat(e, rest);
            lemma_extends_concat(e, rest.drop_first());
        } else if a == "--inspect"@ {
            lemma_passed_on_only_grows(rest, CliModel { inspect: true, ..st });
        } else if a == "--help"@ || a == "-h"@ {
            lemma_passed_on_only_grows(rest, CliModel { help: true, ..st });
        } else if a == "--version"@ || a == "-v"@ {
            lemma_passed_on_only_grows(rest, CliModel { version: true, ..st });
        } else if a == "--port"@ || a == "-p"@ {
            if rest.len() == 0 {
            } else if rest[0] == "--"@ {
                lemma_passed_on_only_grows(rest, with_missing_port(st));
            } else {
                lemma_passed_on_only_grows(rest.drop_first(), with_port_value(st, rest[0]));
            }
        } else if has_prefix(a, "--port="@) {
            lemma_passed_on_only_grows(rest, with_port_value(st, a.skip("--port="@.len() as int)));
        } else if is_spurious(a) {
            lemma_passed_on_only_grows(rest, st);
        } else if is_flag(a) {
            if !has_char(a, '=') && rest.len() > 0 && !is_flag(rest[0]) {
                let n = e.push(a).push(rest[0]);
                lemma_passed_on_only_grows(rest.drop_first(), CliModel { extra_args: n, ..st });
                assert(n =~= e + seq![a, rest[0]]);
                lemma_extends_concat(e, seq![a, rest[0]]);
                lemma_extends_trans(e, n, parse_tokens(args, st).extra_args);
            } else {
                let n = e.push(a);
                lemma_passed_on_only_grows(rest, CliModel { extra_args: n, ..st });
                assert(n =~= e + seq![a]);
                lemma_extends_concat(e, seq![a]);
                lemma_extends_trans(e, n, parse_tokens(args, st).extra_args);
            }
        } else {
            let w = with_positional(st, a);
            lemma_passed_on_only_grows(rest, w);
            assert(e.push(a) =~= e + seq![a]);
            lemma_extends_concat(e, seq![a]);
            lemma_extends_trans(e, w.extra_args, parse_tokens(args, st).extra_args);
        }
    }
}

/// Reading a list that starts with whole tokens and goes on with an option
/// reads the whole tokens first, then the rest from where they left off.
pub proof fn lemma_whole_tokens_compose(pre: Seq<Seq<char>>, tail: Seq<Seq<char>>, st: CliModel)
    requires
        reads_whole(pre),
        tail.len() > 0,
        is_flag(tail[0]),
    ensures
        parse_tokens(pre + tail, st) == parse_tokens(tail, parse_tokens(pre, st)),
    decreases pre.len(),
{
    reveal_strlit("--inspect");
    reveal_strlit("--help");
    reveal_strlit("-h");
    reveal_strlit("--version");
    reveal_strlit("-v");
    reveal_strlit("--port");
    reveal_strlit("-p");
    assert("--help"@[2] != "--port"@[2]);
    assert("-h"@[1] != "-p"@[1]);
    assert("-v"@[1] != "-p"@[1]);
    if pre.len() == 0 {
        assert(pre + tail =~= tail);
    } else {
        let a = pre[0];
        let t = pre.drop_first();
        let full = pre + tail;
        assert(full[0] == a);
        assert(full.drop_first() =~= t + tail);
        if a == "--inspect"@ {
            lemma_whole_tokens_compose(t, tail, CliModel { inspect: true, ..st });
        } else if a == "--help"@ || a == "-h"@ {
            lemma_whole_tokens_compose(t, tail, CliModel { help: true, ..st });
        } else if a == "--version"@ || a == "-v"@ {
            lemma_whole_tokens_compose(t, tail, CliModel { version: true, ..st });
        } else if a == "--port"@ || a == "-p"@ {
            assert((t + tail)[0] == t[0]);
            assert((t + tail).drop_first() =~= t.drop_first() + tail);
            lemma_whole_tokens_compose(t.drop_first(), tail, with_port_value(st, t[0]));
        } else if has_prefix(a, "--port="@) {
            lemma_whole_tokens_compose(
                t,
                tail,
                with_port_value(st, a.skip("--port="@.len() as int)),
            );
        } else if is_spurious(a) {
            lemma_whole_tokens_compose(t, tail, st);
        } else if is_flag(a) {
            if !has_char(a, '=') && t.len() > 0 && !is_flag(t[0]) {
                assert((t + tail)[0] == t[0]);
                assert((t + tail).drop_first() =~= t.drop_first() + tail);
                lemma_whole_tokens_compose(
                    t.drop_first(),
                    tail,
                    CliModel { extra_args: st.extra_args.push(a).push(t[0]), ..st },
                );
            } else {
                if t.len() == 0 {
                    assert((t + tail)[0] == tail[0]);
                } else {
                    assert((t + tail)[0] == t[0]);
                }
                lemma_whole_tokens_compose(
                    t,
                    tail,
                    CliModel { extra_args: st.extra_args.push(a), ..st },
                );
            }
        } else {
            lemma_whole_tokens_compose(t, tail, with_positional(st, a));
        }
    }
}

/// Anywhere in a command line, at a token boundary before any `--`, an option
/// the launcher does not know, with no inline `=` and followed by a token that
/// is not an option, is passed on with that token as its value: the two stand
/// side by side right after what the tokens before passed on, later tokens
/// only add behind them, and neither becomes the input path.
pub proof fn lemma_unknown_option_pairs_anywhere(
    pre: Seq<Seq<char>>,
    f: Seq<char>,
    v: Seq<char>,
    rest: Seq<Seq<char>>,
)
    requires
        reads_whole(pre),
        is_flag(f),
        !is_launcher_token(f),
        !has_char(f, '='),
        !is_flag(v),
    ensures
        ({
            let s = parse_invocation(pre);
            let r = parse_invocation(pre + seq![f, v] + rest);
            let n = s.extra_args.len() as int;
            &&& r == parse_tokens(
                rest,
                CliModel { extra_args: s.extra_args.push(f).push(v), ..s },
            )
            &&& n + 2 <= r.extra_args.len()
            &&& r.extra_args.take(n as int) == s.extra_args
            &&& r.extra_args[n as int] == f
            &&& r.extra_args[n + 1] == v
        }),
{
    let tail = seq![f, v] + rest;
    assert(pre + seq![f, v] + rest =~= pre + tail);
    assert(tail[0] == f);
    lemma_whole_tokens_compose(pre, tail, empty_invocation());
    let s = parse_invocation(pre);
    lemma_unknown_option_takes_value(s, f, v, rest);
    let s2 = CliModel { extra_args: s.extra_args.push(f).push(v), ..s };
    lemma_passed_on_only_grows(rest, s2);
    let r = parse_tokens(rest, s2);
    let n = s.extra_args.len() as int;
    assert(r.extra_args.take(n + 2)[n as int] == r.extra_args[n as int]);
    assert(r.extra_args.take(n + 2)[n + 1] == r.extra_args[n + 1]);
    assert(r.extra_args.take(n as int) =~= s2.extra_args.take(n as int));
    assert(s2.extra_args.take(n as int) =~= s.extra_args);
}

/// Anywhere in a command line, at a token boundary before any `--`, an
/// unknown option with an inline `=`, or followed by another option or by
/// nothing, is passed on alone, right after what the tokens before passed on.
pub proof fn lemma_unknown_option_alone_anywhere(
    pre: Seq<Seq<char>>,
    f: Seq<char>,
    rest: Seq<Seq<char>>,
)
    requires
        reads_whole(pre),
        is_flag(f),
        !is_launcher_token(f),
        has_char(f, '=') || rest.len() == 0 || is_flag(rest[0]),
    ensures
        ({
            let s = parse_invocation(pre);
            let r = parse_invocation(pre + seq![f] + rest);
            let n = s.extra_args.len() as int;
            &&& r == parse_tokens(rest, CliModel { extra_args: s.extra_args.push(f), ..s })
            &&& n + 1 <= r.extra_args.len()
            &&& r.extra_args.take(n as int) == s.extra_args
            &&& r.extra_args[n as int] == f
        }),
{
    let tail = seq![f] + rest;
    assert(pre + seq![f] + rest =~= pre + tail);
    assert(tail[0] == f);
    lemma_whole_tokens_compose(pre, tail, empty_invocation());
    let s = parse_invocation(pre);
    lemma_unknown_option_alone(s, f, rest);
    let s2 = CliModel { extra_args: s.extra_args.push(f), ..s };
    lemma_passed_on_only_grows(rest, s2);
    let r = parse_tokens(rest, s2);
    let n = s.extra_args.len() as int;
    assert(r.extra_args.take(n + 1)[n as int] == r.extra_args[n as int]);
    assert(r.extra_args.take(n as int) =~= s2.extra_args.take(n as int));
    assert(s2.extra_args.take(n as int) =~= s.extra_args);
}

fn record_port_value(r: &mut CliArgs, v: &Vec<char>, from: usize)
    requires
        from <= v@.len(),
    ensures
        final(r)@ == with_port_value(old(r)@, v@.skip(from as int)),
{
    if r.port_error.is_some() {
        return;
    }
    match parse_port(v, from) {
        Some(p) => {
            r.explicit_port = Some(p);
        },
        None => {
            let mut msg = String::from_str("invalid port value '");
            let lit = string_of_range(v, from, v.len());
            assert(lit@ =~= v@.skip(from as int));
            msg.append(lit.as_str());
            msg.append("'");
            r.explicit_port = None;
            r.port_error = Some(msg);
        },
    }
}

fn push_arg(r: &mut CliArgs, a: &String)
    ensures
        final(r)@ == (CliModel { extra_args: old(r)@.extra_args.push(a@), ..old(r)@ }),
{
    r.extra_args.push(a.clone());
    assert(strings_view(r.extra_args@) =~= strings_view(old(r).extra_args@).push(a@));
}

/// Reads the launcher's command line (without the program name).
pub fn parse_cli_args(args: &Vec<String>) -> (r: CliArgs)
    ensures
        r@ == parse_invocation(strings_view(args@)),
{
    let ghost all = strings_view(args@);
    let mut r = CliArgs {
        input_path: None,
        extra_args: Vec::new(),
        inspect: false,
        help: false,
        version: false,
        explicit_port: None,
        port_error: None,
    };
    assert(r@.extra_args =~= Seq::empty());
    assert(r@ == empty_invocation());
    assert(all.skip(0) =~= all);
    let mut i: usize = 0;
    while i < args.len()
        invariant
            i <= args@.len(),
            all == strings_view(args@),
            parse_tokens(all.skip(i as int), r@) == parse_invocation(all),
        decreases args@.len() - i,
    {
        let ghost before = r@;
        let ghost rest = all.skip(i as int + 1);
        let a = &args[i];
        assert(all.skip(i as int)[0] == a@);
        assert(all.skip(i as int).drop_first() =~= rest);
        let s = a.as_str();
        if same_text(s, "--") {
            assert(parse_tokens(all.skip(i as int), before) == after_separator(rest, before));
            let mut j: usize = i + 1;
            while j < args.len()
                invariant
                    i < j <= args@.len(),
                    all == strings_view(args@),
                    rest == all.skip(i as int + 1),
                    after_separator(all.skip(j as int), r@) == after_separator(rest, before),
                decreases args@.len() - j,
            {
                let b = &args[j];
                assert(all.skip(j as int)[0] == b@);
                assert(all.skip(j as int).drop_first() =~= all.skip(j as int + 1));
                if r.input_path.is_none() {
                    r.input_path = Some(b.clone());
                    assert(r@.extra_args + all.skip(j as int + 1) =~= r@.extra_args + all.skip(
                        j as int,
                    ).drop_first());
                } else {
                    let ghost mid = r@;
                    push_arg(&mut r, b);
                    assert(mid.extra_args + all.skip(j as int) =~= r@.extra_args + all.skip(
                        j as int + 1,
                    ));
                }
                j = j + 1;
            }
            assert(all.skip(j as int).len() == 0);
            return r;
        } else if same_text(s, "--inspect") {
            r.inspect = true;
            i = i + 1;
        } else if same_text(s, "--help") || same_text(s, "-h") {
            r.help = true;
            i = i + 1;
        } else if same_text(s, "--version") || same_text(s, "-v") {
            r.version = true;
            i = i + 1;
        } else if same_text(s, "--port") || same_text(s, "-p") {
            if i + 1 == args.len() {
                if r.port_error.is_none() {
                    r.explicit_port = None;
                    r.port_error = Some(String::from_str("missing value for --port"));
                }
                return r;
            }
            assert(rest[0] == args@[i + 1]@);
            if same_text(args[i + 1].as_str(), "--") {
                if r.port_error.is_none() {
                    r.explicit_port = None;
                    r.port_error = Some(String::from_str("missing value for --port"));
                }
                i = i + 1;
                continue;
            }
            let v = chars_of(args[i + 1].as_str());
            assert(rest.drop_first() =~= all.skip(i as int + 2));
            assert(v@.skip(0) =~= v@);
            record_port_value(&mut r, &v, 0);
            i = i + 2;
        } else if starts_with_text(s, "--port=") {
            let v = chars_of(s);
            let n = "--port=".unicode_len();
            record_port_value(&mut r, &v, n);
            i = i + 1;
        } else if starts_with_text(s, "-psn_") {
            i = i + 1;
        } else if s.unicode_len() > 0 && s.get_char(0) == '-' {
            let v = chars_of(s);
            let inline = contains_char(&v, '=');
            if !inline && i + 1 < args.len() && !(args[i + 1].as_str().unicode_len() > 0
                && args[i + 1].as_str().get_char(0) == '-') {
                assert(rest[0] == args@[i + 1]@);
                assert(rest.drop_first() =~= all.skip(i as int + 2));
                push_arg(&mut r, a);
                push_arg(&mut r, &args[i + 1]);
                i = i + 2;
            } else {
                proof {
                    if i + 1 < args.len() {
                        assert(rest[0] == args@[i as int + 1]@);
                    }
                }
                push_arg(&mut r, a);
                i = i + 1;
            }
        } else {
            if r.input_path.is_none() {
                r.input_path = Some(a.clone());
            } else {
                push_arg(&mut r, a);
            }
            i = i + 1;
        }
    }
    assert(all.skip(i as int).len() == 0);
    r
}

} // verus!
