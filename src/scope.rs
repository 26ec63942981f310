//! The backend's working directory: where it comes from, and how it is kept
//! inside an optional confinement root. Also the translation of folder-valued
//! options for the Linux subsystem.
use vstd::prelude::*;
use crate::cli::strings_view;
use crate::error::{LaunchError, PathRole};
use crate::options::{eq_index, option_name};
use crate::paths::{opt_view, trimmed, win_to_wsl_path, wsl_form};
use crate::text::{chars_of, has_prefix, is_flag, push_char, same_text, starts_with_text, string_of_range};

verus! {

/// What the file system holds at the input path.
#[derive(Clone, Copy, Debug, PartialEq, Eq, Structural)]
pub enum EntryKind {
    Missing,
    File,
    Directory,
    Other,
}

/// Where the backend's working directory comes from.
#[derive(Clone, Copy, Debug, PartialEq, Eq, Structural)]
pub enum BaseSource {
    /// The directory that holds the input file.
    InputParent,
    /// The input directory itself.
    Input,
    /// The user's home directory.
    Home,
    /// The launcher's working directory.
    WorkingDir,
}

/// Decides where the working directory comes from: the input path's kind when
/// one was given, else the home directory where the launcher was started at
/// the file-system root by a desktop shell (`home_at_root`), else the
/// launcher's own working directory.
pub fn base_directory_source(input: Option<EntryKind>, home_at_root: bool) -> (r: Result<
    BaseSource,
    LaunchError,
>)
    ensures
        match input {
            Some(EntryKind::File) => r == Ok::<BaseSource, LaunchError>(BaseSource::InputParent),
            Some(EntryKind::Directory) => r == Ok::<BaseSource, LaunchError>(BaseSource::Input),
            Some(EntryKind::Missing) => r matches Err(LaunchError::InputPathMissing),
            Some(EntryKind::Other) => r matches Err(LaunchError::InputPathUnusable),
            None => r == Ok::<BaseSource, LaunchError>(
                if home_at_root {
                    BaseSource::Home
                } else {
                    BaseSource::WorkingDir
                },
            ),
        },
{
    match input {
        Some(EntryKind::File) => Ok(BaseSource::InputParent),
        Some(EntryKind::Directory) => Ok(BaseSource::Input),
        Some(EntryKind::Missing) => Err(LaunchError::InputPathMissing),
        Some(EntryKind::Other) => Err(LaunchError::InputPathUnusable),
        None => if home_at_root {
            Ok(BaseSource::Home)
        } else {
            Ok(BaseSource::WorkingDir)
        },
    }
}

/// `s` without its trailing `/` characters.
pub open spec fn without_trailing_slashes(s: Seq<char>) -> Seq<char>
    decreases s.len(),
{
    if s.len() > 0 && s.last() == '/' {
        without_trailing_slashes(s.drop_last())
    } else {
        s
    }
}

/// Whether the directory `base` is `root` or lies below it, component-wise.
pub open spec fn within(base: Seq<char>, root: Seq<char>) -> bool {
    let r = without_trailing_slashes(root);
    base == r || has_prefix(base, r.push('/'))
}

/// Whether the directory `base` is `root` or lies below it.
pub fn is_within(base: &str, root: &str) -> (r: bool)
    ensures
        r == within(base@, root@),
{
    let v = chars_of(root);
    let mut n: usize = v.len();
    assert(v@.take(n as int) =~= v@);
    while n > 0 && v[n - 1] == '/'
        invariant
            n <= v@.len(),
            v@ == root@,
            without_trailing_slashes(v@.take(n as int)) == without_trailing_slashes(root@),
        decreases n,
    {
        assert(v@.take(n as int).drop_last() =~= v@.take(n as int - 1));
        n = n - 1;
    }
    let mut r = string_of_range(&v, 0, n);
    assert(r@ =~= v@.take(n as int));
    if same_text(base, r.as_str()) {
        return true;
    }
    push_char(&mut r, '/');
    starts_with_text(base, r.as_str())
}

/// Keeps the working directory inside the confinement root: a directory
/// outside it is replaced by the root itself.
pub fn confine_base_directory(base: &str, root: Option<&str>) -> (r: String)
    ensures
        r@ == match root {
            None => base@,
            Some(t) => if within(base@, t@) {
                base@
            } else {
                t@
            },
        },
{
    match root {
        None => String::from_str(base),
        Some(t) => if is_within(base, t) {
            String::from_str(base)
        } else {
            String::from_str(t)
        },
    }
}

/// Translates a path the backend cannot do without; failure names the path.
pub fn translate_required(path: &str, role: PathRole) -> (r: Result<String, LaunchError>)
    ensures
        match r {
            Ok(s) => wsl_form(trimmed(path@)) == Some(s@),
            Err(e) => wsl_form(trimmed(path@)) is None && e == LaunchError::PathTranslationFailed(
                role,
            ),
        },
{
    match win_to_wsl_path(path) {
        Some(s) => Ok(s),
        None => Err(LaunchError::PathTranslationFailed(role)),
    }
}

/// Translates an optional supplementary path: one that cannot be translated
/// is left out rather than failing the launch.
pub fn translate_optional(path: Option<&str>) -> (r: Option<String>)
    ensures
        opt_view(r) == match path {
            Some(p) => wsl_form(trimmed(p@)),
            None => None,
        },
{
    match path {
        Some(p) => win_to_wsl_path(p),
        None => None,
    }
}

/// Keeps the working directory inside the confinement root when the backend
/// runs in the subsystem: both are compared in the subsystem's form.
pub fn confine_bridged_base(base: &str, root: Option<&str>) -> (r: Result<String, LaunchError>)
    ensures
        match r {
            Ok(s) => wsl_form(trimmed(base@)) is Some && match root {
                None => s@ == wsl_form(trimmed(base@))->0,
                Some(t) => wsl_form(trimmed(t@)) is Some && s@ == if within(
                    wsl_form(trimmed(base@))->0,
                    wsl_form(trimmed(t@))->0,
                ) {
                    wsl_form(trimmed(base@))->0
                } else {
                    wsl_form(trimmed(t@))->0
                },
            },
            Err(e) => if wsl_form(trimmed(base@)) is None {
                e == LaunchError::PathTranslationFailed(PathRole::Base)
            } else {
                &&& root is Some
                &&& wsl_form(trimmed(root->0@)) is None
                &&& e == LaunchError::PathTranslationFailed(PathRole::Folder)
            },
        },
{
    let b = translate_required(base, PathRole::Base)?;
    match root {
        None => Ok(b),
        Some(t) => {
            let tr = translate_required(t, PathRole::Folder)?;
            Ok(confine_base_directory(b.as_str(), Some(tr.as_str())))
        },
    }
}

/// The value given to the option `name` in `args`, before any `--`
/// separator: the first `name=value`, or `name` followed by a token that is
/// not an option.
pub open spec fn option_value(args: Seq<Seq<char>>, name: Seq<char>) -> Option<Seq<char>>
    decreases args.len(),
{
    if args.len() == 0 {
        None
    } else {
        let a = args[0];
        let rest = args.drop_first();
        if a == "--"@ {
            None
        } else if a == name && rest.len() > 0 && !is_flag(rest[0]) {
            Some(rest[0])
        } else if has_prefix(a, name.push('=')) {
            Some(a.skip(name.len() + 1 as int))
        } else {
            option_value(rest, name)
        }
    }
}

/// Finds the value given to the option `name`.
pub fn find_option_value(args: &Vec<String>, name: &str) -> (r: Option<String>)
    ensures
        opt_view(r) == option_value(strings_view(args@), name@),
{
    let ghost all = strings_view(args@);
    let mut with_eq = String::from_str(name);
    push_char(&mut with_eq, '=');
    let n = name.unicode_len();
    let mut i: usize = 0;
    assert(all.skip(0) =~= all);
    while i < args.len()
        invariant
            i <= args@.len(),
            all == strings_view(args@),
            with_eq@ == name@.push('='),
            n == name@.len(),
            option_value(all.skip(i as int), name@) == option_value(all, name@),
        decreases args@.len() - i,
    {
        let ghost rest = all.skip(i as int + 1);
        let s = args[i].as_str();
        assert(all.skip(i as int)[0] == s@);
        assert(all.skip(i as int).drop_first() =~= rest);
        if same_text(s, "--") {
            return None;
        }
        if same_text(s, name) && i + 1 < args.len() && !(args[i + 1].as_str().unicode_len() > 0
            && args[i + 1].as_str().get_char(0) == '-') {
            assert(rest[0] == args@[i + 1]@);
            return Some(args[i + 1].clone());
        }
        proof {
            if i + 1 < args.len() {
                assert(rest[0] == args@[i + 1]@);
            }
        }
        if starts_with_text(s, with_eq.as_str()) {
            let v = chars_of(s);
            assert(has_prefix(s@, with_eq@));
            let m = with_eq.as_str().unicode_len();
            let r = string_of_range(&v, m, v.len());
            assert(r@ =~= s@.skip(n + 1));
            return Some(r);
        }
        i = i + 1;
    }
    assert(all.skip(i as int).len() == 0);
    None
}

/// The options whose value is a folder.
pub open spec fn is_folder_option(n: Seq<char>) -> bool {
    n == "--top_level_folder"@ || n == "--frontend_folder"@
}

fn folder_option(n: &str) -> (r: bool)
    ensures
        r == is_folder_option(n@),
{
    same_text(n, "--top_level_folder") || same_text(n, "--frontend_folder")
}

/// `prefix` followed by the translation of `t`, or `None` if `t` failed.
pub open spec fn prepend(prefix: Seq<Seq<char>>, t: Option<Seq<Seq<char>>>) -> Option<Seq<Seq<char>>> {
    match t {
        Some(t) => Some(prefix + t),
        None => None,
    }
}

/// The arguments with the value of every folder option, before any `--`
/// separator, in the subsystem's form; `None` if one cannot be translated.
pub open spec fn translated_folder_args(args: Seq<Seq<char>>) -> Option<Seq<Seq<char>>>
    decreases args.len(),
{
    if args.len() == 0 {
        Some(Seq::empty())
    } else {
        let a = args[0];
        let rest = args.drop_first();
        if a == "--"@ {
            Some(args)
        } else if is_folder_option(a) && rest.len() > 0 && !is_flag(rest[0]) {
            match wsl_form(trimmed(rest[0])) {
                Some(v) => prepend(seq![a, v], translated_folder_args(rest.drop_first())),
                None => None,
            }
        } else if eq_index(a) < a.len() && is_folder_option(option_name(a)) {
            match wsl_form(trimmed(a.skip(eq_index(a) + 1 as int))) {
                Some(v) => prepend(
                    seq![option_name(a) + seq!['='] + v],
                    translated_folder_args(rest),
                ),
                None => None,
            }
        } else {
            prepend(seq![a], translated_folder_args(rest))
        }
    }
}

proof fn lemma_prepend_assoc(
    a: Seq<Seq<char>>,
    b: Seq<Seq<char>>,
    t: Option<Seq<Seq<char>>>,
)
    ensures
        prepend(a, prepend(b, t)) == prepend(a + b, t),
{
    if let Some(x) = t {
        assert(a + (b + x) =~= (a + b) + x);
    }
}

proof fn lemma_eq_index_bound(a: Seq<char>)
    ensures
        eq_index(a) <= a.len(),
        eq_index(a) < a.len() ==> a[eq_index(a) as int] == '=',
        forall|k: int| 0 <= k < eq_index(a) ==> a[k] != '=',
    decreases a.len(),
{
    if a.len() > 0 && a[0] != '=' {
        lemma_eq_index_bound(a.drop_first());
        assert forall|k: int| 0 <= k < eq_index(a) implies a[k] != '=' by {
            if k > 0 {
                assert(a[k] == a.drop_first()[k - 1]);
            }
        }
    }
}

/// Translates the values of the folder options for the subsystem; failure
/// stops the launch.
pub fn translate_folder_args(args: &Vec<String>) -> (r: Result<Vec<String>, LaunchError>)
    ensures
        match r {
            Ok(v) => translated_folder_args(strings_view(args@)) == Some(strings_view(v@)),
            Err(e) => translated_folder_args(strings_view(args@)) is None && e
                == LaunchError::PathTranslationFailed(PathRole::Folder),
        },
{
    let ghost all = strings_view(args@);
    let mut out: Vec<String> = Vec::new();
    let mut i: usize = 0;
    assert(all.skip(0) =~= all);
    assert(strings_view(out@) + Seq::<Seq<char>>::empty() =~= Seq::<Seq<char>>::empty());
    while i < args.len()
        invariant
            i <= args@.len(),
            all == strings_view(args@),
            translated_folder_args(all) == prepend(
                strings_view(out@),
                translated_folder_args(all.skip(i as int)),
            ),
        decreases args@.len() - i,
    {
        let ghost rest = all.skip(i as int + 1);
        let ghost before = strings_view(out@);
        let s = args[i].as_str();
        assert(all.skip(i as int)[0] == s@);
        assert(all.skip(i as int).drop_first() =~= rest);
        if same_text(s, "--") {
            let mut j: usize = i;
            while j < args.len()
                invariant
                    i <= j <= args@.len(),
                    all == strings_view(args@),
                    strings_view(out@) == before + all.subrange(i as int, j as int),
                decreases args@.len() - j,
            {
                let ghost prev = out@;
                out.push(args[j].clone());
                assert(strings_view(out@) =~= strings_view(prev).push(all[j as int]));
                j = j + 1;
                assert(strings_view(out@) =~= before + all.subrange(i as int, j as int));
            }
            assert(all.subrange(i as int, j as int) =~= all.skip(i as int));
            return Ok(out);
        }
        if folder_option(s) && i + 1 < args.len() && !(args[i + 1].as_str().unicode_len() > 0
            && args[i + 1].as_str().get_char(0) == '-') {
            assert(rest[0] == args@[i + 1]@);
            assert(rest.drop_first() =~= all.skip(i as int + 2));
            match win_to_wsl_path(args[i + 1].as_str()) {
                Some(v) => {
                    let ghost vv = v@;
                    out.push(args[i].clone());
                    out.push(v);
                    assert(strings_view(out@) =~= before + seq![s@, vv]);
                    proof {
                        lemma_prepend_assoc(
                            before,
                            seq![s@, vv],
                            translated_folder_args(all.skip(i as int + 2)),
                        );
                    }
                    i = i + 2;
                },
                None => {
                    return Err(LaunchError::PathTranslationFailed(PathRole::Folder));
                },
            }
        } else {
            proof {
                if i + 1 < args.len() {
                    assert(rest[0] == args@[i + 1]@);
                }
            }
            let c = chars_of(s);
            let mut k: usize = 0;
            while k < c.len() && c[k] != '='
                invariant
                    k <= c@.len(),
                    c@ == s@,
                    forall|j: int| 0 <= j < k ==> c@[j] != '=',
                decreases c@.len() - k,
            {
                k = k + 1;
            }
            proof {
                lemma_eq_index_bound(s@);
                if eq_index(s@) < k {
                    assert(c@[eq_index(s@) as int] == '=');
                }
                if k < eq_index(s@) {
                    assert(s@[k as int] != '=');
                }
            }
            let name = string_of_range(&c, 0, k);
            assert(name@ =~= option_name(s@));
            if k < c.len() && folder_option(name.as_str()) {
                let value = string_of_range(&c, k + 1, c.len());
                assert(value@ =~= s@.skip(k + 1));
                match win_to_wsl_path(value.as_str()) {
                    Some(v) => {
                        let mut t = name;
                        push_char(&mut t, '=');
                        t.append(v.as_str());
                        let ghost tv = t@;
                        assert(tv =~= option_name(s@) + seq!['='] + v@);
                        out.push(t);
                        assert(strings_view(out@) =~= before + seq![tv]);
                        proof {
                            lemma_prepend_assoc(before, seq![tv], translated_folder_args(rest));
                        }
                        i = i + 1;
                    },
                    None => {
                        return Err(LaunchError::PathTranslationFailed(PathRole::Folder));
                    },
                }
            } else {
                out.push(args[i].clone());
                assert(strings_view(out@) =~= before + seq![s@]);
                proof {
                    lemma_prepend_assoc(before, seq![s@], translated_folder_args(rest));
                }
                i = i + 1;
            }
        }
    }
    assert(all.skip(i as int).len() == 0);
    assert(strings_view(out@) + Seq::<Seq<char>>::empty() =~= strings_view(out@));
    Ok(out)
}

} // verus!
