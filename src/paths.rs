//! Paths of profile files and of repositories, as text.

use vstd::prelude::*;
use crate::error::NajError;
use crate::text::{is_prefix, is_suffix, starts_with, ends_with, same};

verus! {

/// `rel` resolved against `base`: an absolute `rel` stands alone, otherwise
/// the two are joined by one separator.
pub open spec fn spec_join(base: Seq<char>, rel: Seq<char>) -> Seq<char> {
    if is_prefix("/"@, rel) || base.len() == 0 {
        rel
    } else if is_suffix("/"@, base) {
        base + rel
    } else {
        base + "/"@ + rel
    }
}

/// `path` with a leading `~` replaced by the home directory `home`.
pub open spec fn spec_expand(path: Seq<char>, home: Seq<char>) -> Seq<char> {
    if path == "~"@ {
        home
    } else if is_prefix("~/"@, path) || is_prefix("~\\"@, path) {
        spec_join(home, path.subrange(2, path.len() as int))
    } else {
        path
    }
}

/// The file of profile `id` in the profile directory `dir`.
pub open spec fn spec_profile_file(dir: Seq<char>, id: Seq<char>) -> Seq<char> {
    spec_join(dir, id + ".gitconfig"@)
}

/// `path` made absolute against the working directory `cwd`.
pub open spec fn spec_absolute(cwd: Seq<char>, path: Seq<char>) -> Seq<char> {
    if is_prefix("/"@, path) {
        path
    } else {
        spec_join(cwd, path)
    }
}

pub open spec fn spec_trim_slashes(s: Seq<char>) -> Seq<char>
    decreases s.len(),
{
    if s.len() > 0 && s.last() == '/' {
        spec_trim_slashes(s.drop_last())
    } else {
        s
    }
}

/// The text after the last `/` of `s`, or all of `s` if it has none.
pub open spec fn spec_after_last_slash(s: Seq<char>) -> Seq<char>
    decreases s.len(),
{
    if s.len() == 0 {
        s
    } else if s.last() == '/' {
        Seq::empty()
    } else {
        spec_after_last_slash(s.drop_last()).push(s.last())
    }
}

/// The directory that cloning `url` creates: its last component, without
/// trailing separators and without a `.git` suffix; `repo` where no name
/// remains.
pub open spec fn spec_basename(url: Seq<char>) -> Seq<char> {
    let s = spec_trim_slashes(url);
    let s2 = if is_suffix(".git"@, s) {
        s.subrange(0, s.len() - 4)
    } else {
        s
    };
    let name = spec_file_name(s2);
    if name.len() == 0 {
        "repo"@
    } else {
        name
    }
}

/// `s` without its trailing separators and trailing `.` components, which
/// name no file of their own.
pub open spec fn spec_drop_dots(s: Seq<char>) -> Seq<char>
    decreases s.len(),
{
    if s.len() > 0 && s.last() == '/' {
        spec_drop_dots(s.drop_last())
    } else if s == seq!['.'] {
        Seq::empty()
    } else if s.len() >= 2 && s.last() == '.' && s[s.len() - 2] == '/' {
        spec_drop_dots(s.subrange(0, s.len() - 2))
    } else {
        s
    }
}

/// The file name that a path ends in; empty where it names none (an empty
/// path, the root, a path ending in `..`).
pub open spec fn spec_file_name(s: Seq<char>) -> Seq<char> {
    let t = spec_after_last_slash(spec_drop_dots(s));
    if t == ".."@ {
        Seq::empty()
    } else {
        t
    }
}

/// Relies on `dirs::home_dir`: the current user's home directory, where
/// the platform reports one.
#[verifier::external_body]
fn home_dir() -> (r: Option<String>) {
    match dirs::home_dir() {
        Some(p) => Some(p.to_string_lossy().into_owned()),
        None => None,
    }
}

/// `rel` resolved against `base`.
pub fn join(base: &str, rel: &str) -> (r: String)
    ensures
        r@ == spec_join(base@, rel@),
{
    if starts_with(rel, "/") || base.unicode_len() == 0 {
        String::from_str(rel)
    } else if ends_with(base, "/") {
        String::from_str(base).concat(rel)
    } else {
        String::from_str(base).concat("/").concat(rel)
    }
}

/// `path` with a leading `~` replaced by `home`.
pub fn expand_with_home(path: &str, home: &str) -> (r: String)
    ensures
        r@ == spec_expand(path@, home@),
{
    if same(path, "~") {
        String::from_str(home)
    } else if starts_with(path, "~/") || starts_with(path, "~\\") {
        proof {
            reveal_strlit("~/");
            reveal_strlit("~\\");
        }
        let rest = path.substring_char(2, path.unicode_len());
        join(home, rest)
    } else {
        String::from_str(path)
    }
}

/// `path` with a leading `~` replaced by the home directory. A path that
/// starts with `~` needs the home directory, and fails where it is unknown.
pub fn expand_path(path: &str) -> (r: Result<String, NajError>)
    ensures
        !is_prefix("~"@, path@) ==> r is Ok && r->Ok_0@ == path@,
        r is Err ==> is_prefix("~"@, path@) && r->Err_0 is Io,
        r is Ok ==> exists|home: Seq<char>| r->Ok_0@ == spec_expand(path@, home),
{
    if !starts_with(path, "~") {
        proof {
            reveal_strlit("~");
            reveal_strlit("~/");
            reveal_strlit("~\\");
            if path@ == "~"@ {
                assert(path@.subrange(0, 1) =~= "~"@);
            }
            if is_prefix("~/"@, path@) {
                assert(path@.subrange(0, 2)[0] == '~');
                assert(path@.subrange(0, 1) =~= "~"@);
            }
            if is_prefix("~\\"@, path@) {
                assert(path@.subrange(0, 2)[0] == '~');
                assert(path@.subrange(0, 1) =~= "~"@);
            }
            assert(path@ == spec_expand(path@, Seq::<char>::empty()));
        }
        return Ok(String::from_str(path));
    }
    match home_dir() {
        Some(home) => Ok(expand_with_home(path, home.as_str())),
        None => Err(NajError::Io { context: String::from_str("could not find home directory") }),
    }
}

/// The file of profile `id` in the profile directory `dir`.
pub fn profile_file(dir: &str, id: &str) -> (r: String)
    ensures
        r@ == spec_profile_file(dir@, id@),
{
    let name = String::from_str(id).concat(".gitconfig");
    join(dir, name.as_str())
}

/// `path` made absolute against the working directory `cwd`.
pub fn absolute(cwd: &str, path: &str) -> (r: String)
    ensures
        r@ == spec_absolute(cwd@, path@),
{
    if starts_with(path, "/") {
        String::from_str(path)
    } else {
        join(cwd, path)
    }
}

/// `s` without the separators at its end.
fn trim_slashes(s: &str) -> (r: String)
    ensures
        r@ == spec_trim_slashes(s@),
{
    let n = s.unicode_len();
    let mut b: usize = n;
    proof {
        assert(s@.subrange(0, n as int) =~= s@);
    }
    while b > 0 && s.get_char(b - 1) == '/'
        invariant
            n == s@.len(),
            b <= n,
            spec_trim_slashes(s@.subrange(0, b as int)) == spec_trim_slashes(s@),
        decreases b,
    {
        proof {
            assert(s@.subrange(0, b as int).drop_last() =~= s@.subrange(0, b - 1));
        }
        b -= 1;
    }
    String::from_str(s.substring_char(0, b))
}

/// The text after the last separator of `s`.
fn after_last_slash(s: &str) -> (r: String)
    ensures
        r@ == spec_after_last_slash(s@),
{
    let n = s.unicode_len();
    let mut a: usize = n;
    proof {
        assert(s@.subrange(0, n as int) =~= s@);
        assert(s@.subrange(n as int, n as int) =~= Seq::<char>::empty());
    }
    while a > 0 && s.get_char(a - 1) != '/'
        invariant
            n == s@.len(),
            a <= n,
            spec_after_last_slash(s@) == spec_after_last_slash(s@.subrange(0, a as int))
                + s@.subrange(a as int, n as int),
        decreases a,
    {
        proof {
            let p = s@.subrange(0, a as int);
            assert(p.drop_last() =~= s@.subrange(0, a - 1));
            assert(s@.subrange(a - 1, n as int) =~= seq![p.last()] + s@.subrange(a as int, n as int));
            assert(spec_after_last_slash(p) == spec_after_last_slash(p.drop_last()).push(p.last()));
            assert(spec_after_last_slash(p.drop_last()).push(p.last()) + s@.subrange(a as int, n as int)
                =~= spec_after_last_slash(p.drop_last()) + s@.subrange(a - 1, n as int));
        }
        a -= 1;
    }
    proof {
        let p = s@.subrange(0, a as int);
        assert(spec_after_last_slash(p) =~= Seq::<char>::empty());
        assert(spec_after_last_slash(p) + s@.subrange(a as int, n as int) =~= s@.subrange(a as int, n as int));
    }
    String::from_str(s.substring_char(a, n))
}

/// The directory that cloning `url` creates.
pub fn extract_basename(url: &str) -> (r: String)
    ensures
        r@ == spec_basename(url@),
{
    let s = trim_slashes(url);
    let s2 = if ends_with(s.as_str(), ".git") {
        proof {
            reveal_strlit(".git");
        }
        String::from_str(s.as_str().substring_char(0, s.as_str().unicode_len() - 4))
    } else {
        s
    };
    let name = file_name(s2.as_str());
    if name.as_str().unicode_len() == 0 {
        String::from_str("repo")
    } else {
        name
    }
}

/// `s` without its trailing separators and trailing `.` components.
fn drop_dots(s: &str) -> (r: String)
    ensures
        r@ == spec_drop_dots(s@),
{
    let c = crate::text::chars_of(s);
    let n = c.len();
    let mut b: usize = n;
    proof {
        assert(s@.subrange(0, n as int) =~= s@);
    }
    loop
        invariant
            c@ == s@,
            n == c.len(),
            b <= n,
            spec_drop_dots(s@.subrange(0, b as int)) == spec_drop_dots(s@),
        ensures
            b <= n,
            spec_drop_dots(s@) == s@.subrange(0, b as int),
        decreases b,
    {
        let ghost p = s@.subrange(0, b as int);
        if b > 0 && c[b - 1] == '/' {
            proof {
                assert(p.drop_last() =~= s@.subrange(0, b - 1));
            }
            b -= 1;
        } else if b == 1 && c[0] == '.' {
            proof {
                assert(p =~= seq!['.']);
                assert(s@.subrange(0, 0) =~= Seq::<char>::empty());
            }
            b = 0;
        } else if b >= 2 && c[b - 1] == '.' && c[b - 2] == '/' {
            proof {
                assert(p.subrange(0, b - 2) =~= s@.subrange(0, b - 2));
                assert(p != seq!['.']) by {
                    assert(p.len() != 1);
                }
            }
            b -= 2;
        } else {
            proof {
                if b > 0 {
                    assert(p.last() == c@[b - 1]);
                }
                if b >= 2 {
                    assert(p[b - 2] == c@[b - 2]);
                }
                if p == seq!['.'] {
                    assert(p.len() == 1 && p[0] == '.');
                    assert(c@[0] == p[0]);
                }
                assert(spec_drop_dots(p) == p);
            }
            break;
        }
    }
    String::from_str(s.substring_char(0, b))
}

/// The file name that the path `s` ends in, or nothing.
pub fn file_name(s: &str) -> (r: String)
    ensures
        r@ == spec_file_name(s@),
{
    let t = drop_dots(s);
    let name = after_last_slash(t.as_str());
    if same(name.as_str(), "..") {
        String::new()
    } else {
        name
    }
}

} // verus!
