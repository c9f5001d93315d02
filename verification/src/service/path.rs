//! Checks on the configuration path that a client hands the service.
//!
//! Device paths (`\\.\`, `\\?\`) and network (UNC) paths are refused; the
//! path must be absolute and name a `.age` file; the file must be a
//! regular file of less than 64 KiB.
use vstd::prelude::*;

use crate::text::{ascii_lower, chars_of, decimal, push_decimal, push_str, push_string, range_eq, range_lower_eq, string_from};

verus! {

/// Size (64 KiB) that a `.conf.age` file must stay below.
pub const MAX_CONFIG_FILE_SIZE: u64 = 65536;

pub open spec fn starts_with(s: Seq<char>, p: Seq<char>) -> bool {
    p.len() <= s.len() && s.take(p.len() as int) == p
}

/// A path with no separator (`/`, `\`) and no drive or prefix mark
/// (`:`): on every platform, a bare relative name.
pub open spec fn bare_name(path: Seq<char>) -> bool {
    !path.contains('/') && !path.contains('\\') && !path.contains(':')
}

/// A path that starts with no separator (`/`, `\\`) and holds no `:`: on
/// every platform it has neither a root nor a prefix (drive, UNC or
/// device), so it is relative, such as `configs/home.conf.age`.
pub open spec fn relative_form(path: Seq<char>) -> bool {
    &&& !(path.len() > 0 && (path[0] == '/' || path[0] == '\\'))
    &&& !path.contains(':')
}

/// Only separators (`/`, `\\`) and `.` marks: what may follow a file
/// name at the end of a path (`x.age/`, `x.age\\.`).
pub open spec fn trailing_marks(t: Seq<char>) -> bool {
    forall|i: int| 0 <= i < t.len() ==> t[i] == '/' || t[i] == '\\' || t[i] == '.'
}

/// `e` is an extension of `path`: the path is some stem, a `.`, then `e`
/// (which holds no `.`), then at most trailing separators and `.` marks.
pub open spec fn has_extension(path: Seq<char>, e: Seq<char>) -> bool {
    &&& !e.contains('.')
    &&& exists|stem: Seq<char>, tail: Seq<char>|
        #![auto]
        path == stem + "."@ + e + tail && trailing_marks(tail)
}

/// The path names a file with the `.age` extension, in any case.
pub open spec fn age_extension(path: Seq<char>) -> bool {
    exists|e: Seq<char>| #[trigger] has_extension(path, e) && ascii_lower(e) == "age"@
}

/// The verdict on the form of a path, given whether the platform's path
/// rules call it absolute and the extension they find in it.
pub open spec fn path_form_verdict(path: Seq<char>, is_absolute: bool, extension: Option<Seq<char>>) -> Result<(), Seq<char>> {
    if starts_with(path, "\\\\.\\"@) || starts_with(path, "\\\\?\\"@) {
        Err("chemin device interdit"@)
    } else if starts_with(path, "\\\\"@) {
        Err("chemins réseau (UNC) interdits"@)
    } else if !is_absolute {
        Err("le chemin doit être absolu"@)
    } else if !(extension matches Some(e) && ascii_lower(e) == "age"@) {
        Err("le fichier doit avoir l'extension .age"@)
    } else {
        Ok(())
    }
}

/// The verdict on the file a path names, from its metadata: whether it is
/// a regular file and its length, or the error reading them.
pub open spec fn metadata_verdict(metadata: Result<(bool, u64), Seq<char>>) -> Result<(), Seq<char>> {
    match metadata {
        Err(e) => Err("impossible de lire les métadonnées : "@ + e),
        Ok((is_file, len)) => if !is_file {
            Err("le chemin ne pointe pas vers un fichier régulier"@)
        } else if len >= MAX_CONFIG_FILE_SIZE {
            Err("fichier trop gros ("@ + decimal(len as nat) + " octets, max "@ + decimal(
                MAX_CONFIG_FILE_SIZE as nat,
            ) + ")"@)
        } else {
            Ok(())
        },
    }
}

fn starts_with_text(v: &Vec<char>, p: &str) -> (b: bool)
    ensures
        b == starts_with(v@, p@),
{
    let pv = chars_of(p);
    if pv.len() > v.len() {
        return false;
    }
    range_eq(v, 0, pv.len(), &pv)
}

/// `path_form_verdict`, computed.
pub fn check_path_form(path: &str, is_absolute: bool, extension: Option<&str>) -> (r: Result<(), String>)
    ensures
        match path_form_verdict(path@, is_absolute, match extension {
            Some(e) => Some(e@),
            None => None,
        }) {
            Ok(()) => r is Ok,
            Err(m) => r is Err && r->Err_0@ == m,
        },
{
    let v = chars_of(path);
    if starts_with_text(&v, "\\\\.\\") || starts_with_text(&v, "\\\\?\\") {
        return Err(string_from("chemin device interdit"));
    }
    if starts_with_text(&v, "\\\\") {
        return Err(string_from("chemins réseau (UNC) interdits"));
    }
    if !is_absolute {
        return Err(string_from("le chemin doit être absolu"));
    }
    let ext_ok = match extension {
        Some(e) => {
            let ev = chars_of(e);
            range_lower_eq(&ev, 0, ev.len(), &chars_of("age"))
        },
        None => false,
    };
    proof {
        if let Some(e) = extension {
            assert(e@.subrange(0, e@.len() as int) == e@);
        }
    }
    if !ext_ok {
        return Err(string_from("le fichier doit avoir l'extension .age"));
    }
    Ok(())
}

/// Whether the platform's path rules (`std::path::Path::is_absolute`) call
/// the path absolute. The answer depends on the platform, except that a
/// path of `relative_form` (so a bare name too) is never absolute: std
/// documents an absolute path as one that starts with the root (Unix), or
/// has a prefix and a root (Windows), where every prefix (`\\?\`,
/// `\\.\`, `\\server\share`, `C:`) starts with `\` or holds a `:`.
/// Nothing else is claimed.
#[verifier::external_body]
fn path_is_absolute(path: &str) -> (r: bool)
    ensures
        bare_name(path@) ==> !r,
        relative_form(path@) ==> !r,
{
    std::path::Path::new(path).is_absolute()
}

/// The extension that the platform's path rules
/// (`std::path::Path::extension`) find in the path, if it is valid text.
/// std documents the extension as the part after the final `.` of the file
/// name, the path's last component (trailing separators and `.`
/// components do not count, and a path ending in `..` has no file name):
/// so on every platform the path is some stem, a `.`, the extension (which
/// holds no `.`) and at most trailing separators and `.` marks. For a bare
/// name, the file name is the whole path and does not begin with that
/// `.`. Which characters are separators depends on the platform, and is
/// not claimed.
#[verifier::external_body]
fn path_extension(path: &str) -> (r: Option<String>)
    ensures
        r is Some ==> has_extension(path@, r->Some_0@),
        bare_name(path@) && r is Some ==> exists|stem: Seq<char>|
            stem.len() > 0 && path@ == stem + "."@ + r->Some_0@ && !r->Some_0@.contains('.'),
{
    std::path::Path::new(path).extension().and_then(|e| e.to_str()).map(|e| e.to_string())
}

/// Checks the form of a configuration path, with the platform's path
/// rules deciding what is absolute and what the extension is.
pub fn validate_config_path_form(path: &str) -> (r: Result<(), String>)
    ensures
        exists|abs: bool, ext: Option<Seq<char>>|
            (ext matches Some(e) ==> has_extension(path@, e)) && match #[trigger] path_form_verdict(
                path@,
                abs,
                ext,
            ) {
                Ok(()) => r is Ok,
                Err(m) => r is Err && r->Err_0@ == m,
            },
        bare_name(path@) ==> r is Err && r->Err_0@ == "le chemin doit être absolu"@,
        relative_form(path@) ==> r is Err && r->Err_0@ == "le chemin doit être absolu"@,
        r is Ok ==> age_extension(path@),
        r is Ok ==> !relative_form(path@),
{
    let abs = path_is_absolute(path);
    let ext = path_extension(path);
    let r = match &ext {
        Some(e) => check_path_form(path, abs, Some(e.as_str())),
        None => check_path_form(path, abs, None),
    };
    proof {
        let ev: Option<Seq<char>> = match ext {
            Some(e) => Some(e@),
            None => None,
        };
        assert(match path_form_verdict(path@, abs, ev) {
            Ok(()) => r is Ok,
            Err(m) => r is Err && r->Err_0@ == m,
        });
        if bare_name(path@) {
            lemma_bare_name_not_prefixed(path@);
        }
        if relative_form(path@) {
            lemma_relative_not_prefixed(path@);
        }
        if r is Ok {
            let e = ev.unwrap();
            assert(has_extension(path@, e) && ascii_lower(e) == "age"@);
        }
    }
    r
}

proof fn lemma_bare_name_not_prefixed(path: Seq<char>)
    requires
        bare_name(path),
    ensures
        !starts_with(path, "\\\\"@),
        !starts_with(path, "\\\\.\\"@),
        !starts_with(path, "\\\\?\\"@),
{
    reveal_strlit("\\\\");
    reveal_strlit("\\\\.\\");
    reveal_strlit("\\\\?\\");
    let bs: Seq<char> = seq!['\\'];
    assert("\\\\"@.take(1) =~= bs);
    assert("\\\\.\\"@.take(1) =~= bs);
    assert("\\\\?\\"@.take(1) =~= bs);
    assert forall|p: Seq<char>| p.len() >= 1 && p.take(1) == bs implies !starts_with(path, p) by {
        if starts_with(path, p) {
            assert(path.take(p.len() as int).take(1) =~= path.take(1));
            assert(path.take(1)[0] == path[0]);
            assert(path.contains(path[0]));
        }
    }
}

proof fn lemma_relative_not_prefixed(path: Seq<char>)
    requires
        relative_form(path),
    ensures
        !starts_with(path, "\\\\"@),
        !starts_with(path, "\\\\.\\"@),
        !starts_with(path, "\\\\?\\"@),
{
    reveal_strlit("\\\\");
    reveal_strlit("\\\\.\\");
    reveal_strlit("\\\\?\\");
    let bs: Seq<char> = seq!['\\'];
    assert("\\\\"@.take(1) =~= bs);
    assert("\\\\.\\"@.take(1) =~= bs);
    assert("\\\\?\\"@.take(1) =~= bs);
    assert forall|p: Seq<char>| p.len() >= 1 && p.take(1) == bs implies !starts_with(path, p) by {
        if starts_with(path, p) {
            assert(path.take(p.len() as int).take(1) =~= path.take(1));
            assert(path.take(1)[0] == path[0]);
        }
    }
}

/// `metadata_verdict`, computed.
pub fn check_config_metadata(metadata: Result<(bool, u64), String>) -> (r: Result<(), String>)
    ensures
        match metadata_verdict(match metadata {
            Ok(m) => Ok(m),
            Err(e) => Err(e@),
        }) {
            Ok(()) => r is Ok,
            Err(m) => r is Err && r->Err_0@ == m,
        },
{
    match metadata {
        Err(e) => {
            let mut m = string_from("impossible de lire les métadonnées : ");
            push_string(&mut m, &e);
            Err(m)
        },
        Ok((is_file, len)) => {
            if !is_file {
                return Err(string_from("le chemin ne pointe pas vers un fichier régulier"));
            }
            if len >= MAX_CONFIG_FILE_SIZE {
                let mut m = string_from("fichier trop gros (");
                push_decimal(&mut m, len);
                push_str(&mut m, " octets, max ");
                push_decimal(&mut m, MAX_CONFIG_FILE_SIZE);
                push_str(&mut m, ")");
                return Err(m);
            }
            Ok(())
        },
    }
}

} // verus!
