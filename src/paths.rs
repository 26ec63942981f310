//! Path translation between host addressing and the Linux subsystem, shell
//! quoting, and the configuration-directory override.
use vstd::prelude::*;
use crate::text::{chars_of, has_char, has_prefix, push_char};

verus! {

/// The characters with the Unicode property `White_Space`.
pub open spec fn is_white_space(c: char) -> bool {
    let u = c as u32;
    (0x9 <= u && u <= 0xD) || u == 0x20 || u == 0x85 || u == 0xA0 || u == 0x1680 || (0x2000 <= u
        && u <= 0x200A) || u == 0x2028 || u == 0x2029 || u == 0x202F || u == 0x205F || u == 0x3000
}

/// `s` without its leading white space.
pub open spec fn trim_start(s: Seq<char>) -> Seq<char>
    decreases s.len(),
{
    if s.len() > 0 && is_white_space(s[0]) {
        trim_start(s.drop_first())
    } else {
        s
    }
}

/// `s` without its trailing white space.
pub open spec fn trim_end(s: Seq<char>) -> Seq<char>
    decreases s.len(),
{
    if s.len() > 0 && is_white_space(s.last()) {
        trim_end(s.drop_last())
    } else {
        s
    }
}

/// `s` without its leading and trailing white space.
pub open spec fn trimmed(s: Seq<char>) -> Seq<char> {
    trim_end(trim_start(s))
}

/// Relies on `str::trim`: leading and trailing characters with the Unicode
/// property `White_Space` are removed.
#[verifier::external_body]
pub(crate) fn trim_text(s: &str) -> (r: &str)
    ensures
        r@ == trimmed(s@),
{
    s.trim()
}

/// The body of a single-quoted shell word: each `'` becomes `'"'"'`.
pub open spec fn quoted_body(s: Seq<char>) -> Seq<char>
    decreases s.len(),
{
    if s.len() == 0 {
        Seq::empty()
    } else if s.last() == '\'' {
        quoted_body(s.drop_last()) + seq!['\'', '"', '\'', '"', '\'']
    } else {
        quoted_body(s.drop_last()).push(s.last())
    }
}

/// `s` as one single-quoted shell word, which the shell reads back unchanged.
pub open spec fn shell_quoted(s: Seq<char>) -> Seq<char> {
    seq!['\''] + quoted_body(s) + seq!['\'']
}

/// Quotes `value` for a POSIX shell: the empty string becomes `''`.
pub fn bash_escape(value: &str) -> (r: String)
    ensures
        r@ == shell_quoted(value@),
{
    let v = chars_of(value);
    let mut r = String::new();
    push_char(&mut r, '\'');
    let mut i: usize = 0;
    while i < v.len()
        invariant
            i <= v@.len(),
            v@ == value@,
            r@ == seq!['\''] + quoted_body(v@.take(i as int)),
        decreases v@.len() - i,
    {
        let c = v[i];
        assert(v@.take(i as int + 1).drop_last() =~= v@.take(i as int));
        if c == '\'' {
            push_char(&mut r, '\'');
            push_char(&mut r, '"');
            push_char(&mut r, '\'');
            push_char(&mut r, '"');
            push_char(&mut r, '\'');
        } else {
            push_char(&mut r, c);
        }
        i = i + 1;
        assert(r@ =~= seq!['\''] + quoted_body(v@.take(i as int)));
    }
    push_char(&mut r, '\'');
    assert(v@.take(v@.len() as int) =~= v@);
    assert(r@ =~= shell_quoted(value@));
    r
}

/// The extended-length prefix `\\?\` of host paths.
pub open spec fn extended_prefix() -> Seq<char> {
    seq!['\\', '\\', '?', '\\']
}

pub open spec fn is_ascii_letter(c: char) -> bool {
    ('a' <= c && c <= 'z') || ('A' <= c && c <= 'Z')
}

pub open spec fn lower_ascii(c: char) -> char {
    if 'A' <= c && c <= 'Z' {
        ((c as u32) + 32) as char
    } else {
        c
    }
}

pub open spec fn forward_slash(c: char) -> char {
    if c == '\\' {
        '/'
    } else {
        c
    }
}

/// A drive-letter path (`C:\a\b`, optionally behind `\\?\`) in the
/// subsystem's mount form (`/mnt/c/a/b`); `None` for any other shape.
pub open spec fn wsl_form(p: Seq<char>) -> Option<Seq<char>> {
    let q = if has_prefix(p, extended_prefix()) {
        p.skip(4)
    } else {
        p
    };
    if q.len() >= 2 && is_ascii_letter(q[0]) && q[1] == ':' {
        Some(seq!['/', 'm', 'n', 't', '/', lower_ascii(q[0])] + q.skip(2).map_values(
            |c: char| forward_slash(c),
        ))
    } else {
        None
    }
}

pub open spec fn opt_view(o: Option<String>) -> Option<Seq<char>> {
    match o {
        Some(s) => Some(s@),
        None => None,
    }
}

/// Translates a drive-letter path, taken as it stands, into the subsystem's
/// mount form.
pub fn drive_path_to_wsl(path: &str) -> (r: Option<String>)
    ensures
        opt_view(r) == wsl_form(path@),
{
    let p = chars_of(path);
    let start: usize = if p.len() >= 4 && p[0] == '\\' && p[1] == '\\' && p[2] == '?' && p[3]
        == '\\' {
        4
    } else {
        0
    };
    proof {
        if p@.len() >= 4 {
            assert(has_prefix(p@, extended_prefix()) <==> (p@[0] == '\\' && p@[1] == '\\' && p@[2]
                == '?' && p@[3] == '\\')) by {
                if has_prefix(p@, extended_prefix()) {
                    assert(p@.subrange(0, 4)[0] == p@[0]);
                    assert(p@.subrange(0, 4)[1] == p@[1]);
                    assert(p@.subrange(0, 4)[2] == p@[2]);
                    assert(p@.subrange(0, 4)[3] == p@[3]);
                }
                if p@[0] == '\\' && p@[1] == '\\' && p@[2] == '?' && p@[3] == '\\' {
                    assert(p@.subrange(0, 4) =~= extended_prefix());
                }
            }
        }
    }
    let ghost q = p@.skip(start as int);
    if p.len() < start + 2 {
        return None;
    }
    let d = p[start];
    if !(('a' <= d && d <= 'z') || ('A' <= d && d <= 'Z')) || p[start + 1] != ':' {
        return None;
    }
    let mut r = String::new();
    push_char(&mut r, '/');
    push_char(&mut r, 'm');
    push_char(&mut r, 'n');
    push_char(&mut r, 't');
    push_char(&mut r, '/');
    if 'A' <= d && d <= 'Z' {
        push_char(&mut r, ((d as u8) + 32) as char);
    } else {
        push_char(&mut r, d);
    }
    let ghost head = r@;
    let mut i: usize = start + 2;
    while i < p.len()
        invariant
            start + 2 <= i <= p@.len(),
            r@ == head + p@.subrange(start + 2, i as int).map_values(|c: char| forward_slash(c)),
        decreases p@.len() - i,
    {
        let c = p[i];
        if c == '\\' {
            push_char(&mut r, '/');
        } else {
            push_char(&mut r, c);
        }
        i = i + 1;
        assert(r@ =~= head + p@.subrange(start + 2, i as int).map_values(
            |c: char| forward_slash(c),
        ));
    }
    assert(p@.subrange(start + 2, p@.len() as int) =~= q.skip(2));
    assert(r@ =~= wsl_form(path@)->0);
    Some(r)
}

/// Translates a host path into the subsystem's mount form, after removing
/// surrounding whitespace.
pub fn win_to_wsl_path(win_path: &str) -> (r: Option<String>)
    ensures
        opt_view(r) == wsl_form(trimmed(win_path@)),
{
    drive_path_to_wsl(trim_text(win_path))
}

/// The value of the configuration-path variable: a relative escape out of
/// the backend's build-time prefix, the directory, and the platform tag.
pub open spec fn casa_value(etc: Seq<char>) -> Seq<char> {
    "../../../../../"@ + etc + " linux"@
}

/// Builds the configuration-path override for the directory `etc_path`.
pub fn resolve_casa_path(etc_path: &str) -> (r: String)
    ensures
        r@ == casa_value(etc_path@),
{
    let mut r = String::from_str("../../../../../");
    r.append(etc_path);
    r.append(" linux");
    r
}

/// An override built from a directory with no space is the escape prefix,
/// the directory, and the platform tag, with exactly one space: the one
/// before the tag.
pub proof fn lemma_override_single_space(etc: Seq<char>)
    requires
        !has_char(etc, ' '),
    ensures
        has_prefix(casa_value(etc), "../../../../../"@),
        casa_value(etc).skip(casa_value(etc).len() - 6) == " linux"@,
        forall|i: int|
            0 <= i < casa_value(etc).len() ==> (casa_value(etc)[i] == ' ' <==> i == 15
                + etc.len()),
{
    reveal_strlit("../../../../../");
    reveal_strlit(" linux");
    let v = casa_value(etc);
    assert(v.subrange(0, 15) =~= "../../../../../"@);
    assert(v.skip(v.len() - 6) =~= " linux"@);
    assert forall|i: int| 0 <= i < v.len() implies (v[i] == ' ' <==> i == 15 + etc.len()) by {
        if 15 <= i < 15 + etc.len() {
            assert(v[i] == etc[i - 15]);
        }
    }
}

} // verus!
